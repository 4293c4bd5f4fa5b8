//! Texts in UTF-16, as the operating system takes and gives them.

use crate::text::lemma_char;
use vstd::prelude::*;

verus! {

/// `char::from_u32`: the character with this scalar value, if it is one.
/// Surrogates and numbers above 0x10FFFF are none.
pub assume_specification[ char::from_u32 ](i: u32) -> (r: Option<char>)
    ensures
        r is Some <==> i < 0xd800 || 0xe000 <= i <= 0x10_ffff,
        r is Some ==> r->0 as u32 == i,
;

/// A character in UTF-16: one unit, or two for those beyond 0xFFFF.
pub open spec fn char_units(c: char) -> Seq<u16> {
    let n = c as u32;
    if n < 0x1_0000 {
        seq![n as u16]
    } else {
        seq![
            (0xd800 + (n - 0x1_0000) / 0x400) as u16,
            (0xdc00 + (n - 0x1_0000) % 0x400) as u16,
        ]
    }
}

/// A text in UTF-16.
pub open spec fn utf16(s: Seq<char>) -> Seq<u16>
    decreases s.len(),
{
    if s.len() == 0 {
        Seq::empty()
    } else {
        char_units(s[0]) + utf16(s.skip(1))
    }
}

/// The first half of a character beyond 0xFFFF.
pub open spec fn is_lead(u: u16) -> bool {
    0xd800 <= u < 0xdc00
}

/// The second half of a character beyond 0xFFFF.
pub open spec fn is_trail(u: u16) -> bool {
    0xdc00 <= u < 0xe000
}

/// The character that two halves make.
pub open spec fn paired(lead: u16, trail: u16) -> char {
    (0x1_0000 + (lead - 0xd800) * 0x400 + (trail - 0xdc00)) as char
}

/// The text that units in UTF-16 stand for. A half without its other half
/// becomes the replacement character.
pub open spec fn decode_utf16(s: Seq<u16>) -> Seq<char>
    decreases s.len(),
{
    if s.len() == 0 {
        Seq::empty()
    } else if is_lead(s[0]) && s.len() > 1 && is_trail(s[1]) {
        seq![paired(s[0], s[1])] + decode_utf16(s.skip(2))
    } else if is_lead(s[0]) || is_trail(s[0]) {
        seq!['\u{fffd}'] + decode_utf16(s.skip(1))
    } else {
        seq![s[0] as char] + decode_utf16(s.skip(1))
    }
}

/// What stands before the first zero.
pub open spec fn until_nul(s: Seq<u16>) -> Seq<u16>
    decreases s.len(),
{
    if s.len() == 0 || s[0] == 0 {
        Seq::empty()
    } else {
        seq![s[0]] + until_nul(s.skip(1))
    }
}

/// Units in UTF-16 as bytes, the lower byte of each first.
pub open spec fn le_units(s: Seq<u16>) -> Seq<u8>
    decreases s.len(),
{
    if s.len() == 0 {
        Seq::empty()
    } else {
        le_units(s.drop_last()).push((s.last() % 0x100) as u8).push((s.last() / 0x100) as u8)
    }
}

proof fn lemma_utf16_push(s: Seq<char>, c: char)
    ensures
        utf16(s.push(c)) == utf16(s) + char_units(c),
    decreases s.len(),
{
    reveal_with_fuel(utf16, 2);
    let t = s.push(c);
    if s.len() == 0 {
        assert(t.skip(1) =~= Seq::<char>::empty());
        assert(utf16(t) =~= utf16(s) + char_units(c));
    } else {
        assert(t.skip(1) =~= s.skip(1).push(c));
        assert(t[0] == s[0]);
        lemma_utf16_push(s.skip(1), c);
        assert(utf16(t) =~= utf16(s) + char_units(c));
    }
}

/// A text in UTF-16.
pub fn encode_utf16(s: &str) -> (v: Vec<u16>)
    ensures
        v@ == utf16(s@),
{
    let mut v: Vec<u16> = Vec::new();
    assert(s@.take(0) =~= Seq::<char>::empty());
    for c in it: s.chars()
        invariant
            v@ == utf16(s@.take(it.index() as int)),
            it.seq() == s@,
    {
        let ghost before = s@.take(it.index() as int);
        let n: u32 = c as u32;
        let ghost old_v = v@;
        if n < 0x1_0000 {
            v.push(n as u16);
        } else {
            v.push((0xd800 + (n - 0x1_0000) / 0x400) as u16);
            v.push((0xdc00 + (n - 0x1_0000) % 0x400) as u16);
        }
        proof {
            assert(v@ =~= old_v + char_units(c));
            lemma_utf16_push(before, c);
            assert(s@.take(it.index() as int + 1) =~= before.push(c));
        }
    }
    assert(s@.take(s@.len() as int) =~= s@);
    v
}

/// A text in UTF-16 with a zero behind it.
pub fn to_wide(s: &str) -> (v: Vec<u16>)
    ensures
        v@ == utf16(s@).push(0),
{
    let mut v: Vec<u16> = encode_utf16(s);
    v.push(0);
    v
}

/// Units in UTF-16 as bytes, the lower byte of each first.
pub fn units_to_bytes(units: &[u16]) -> (b: Vec<u8>)
    ensures
        b@ == le_units(units@),
{
    let mut b: Vec<u8> = Vec::new();
    let mut i: usize = 0;
    while i < units.len()
        invariant
            i <= units.len(),
            b@ == le_units(units@.take(i as int)),
        decreases units.len() - i,
    {
        let ghost before = units@.take(i as int);
        let u: u16 = units[i];
        b.push((u % 0x100) as u8);
        b.push((u / 0x100) as u8);
        i = i + 1;
        assert(units@.take(i as int).drop_last() =~= before);
    }
    assert(units@.take(units@.len() as int) =~= units@);
    b
}

/// The text that units in UTF-16 stand for.
pub fn from_utf16_lossy(units: &[u16]) -> (r: String)
    ensures
        r@ == decode_utf16(units@),
{
    let mut r: String = String::new();
    let mut i: usize = 0;
    assert(units@.skip(0) =~= units@);
    while i < units.len()
        invariant
            i <= units.len(),
            r@ + decode_utf16(units@.skip(i as int)) == decode_utf16(units@),
        decreases units.len() - i,
    {
        let ghost rest = units@.skip(i as int);
        let ghost before = r@;
        let u: u16 = units[i];
        assert(rest[0] == u);
        if 0xd800 <= u && u < 0xdc00 && i + 1 < units.len() && 0xdc00 <= units[i + 1] && units[i
            + 1] < 0xe000 {
            let t: u16 = units[i + 1];
            assert(rest[1] == t);
            let n: u32 = 0x1_0000 + (u as u32 - 0xd800) * 0x400 + (t as u32 - 0xdc00);
            match char::from_u32(n) {
                Some(c) => {
                    proof {
                        lemma_char(c);
                    }
                    assert(c == paired(u, t));
                    r.push(c);
                },
                None => {
                    assert(false);
                },
            }
            assert(rest.skip(2) =~= units@.skip(i + 2));
            assert(before + decode_utf16(rest) =~= r@ + decode_utf16(rest.skip(2)));
            i = i + 2;
        } else if 0xd800 <= u && u < 0xe000 {
            r.push('\u{fffd}');
            assert(!(is_lead(rest[0]) && rest.len() > 1 && is_trail(rest[1]))) by {
                if rest.len() > 1 {
                    assert(rest[1] == units@[i + 1]);
                }
            }
            assert(rest.skip(1) =~= units@.skip(i + 1));
            assert(before + decode_utf16(rest) =~= r@ + decode_utf16(rest.skip(1)));
            i = i + 1;
        } else {
            match char::from_u32(u as u32) {
                Some(c) => {
                    proof {
                        lemma_char(c);
                    }
                    assert(c == u as char);
                    r.push(c);
                },
                None => {
                    assert(false);
                },
            }
            assert(rest.skip(1) =~= units@.skip(i + 1));
            assert(before + decode_utf16(rest) =~= r@ + decode_utf16(rest.skip(1)));
            i = i + 1;
        }
    }
    assert(units@.skip(units@.len() as int) =~= Seq::<u16>::empty());
    assert(r@ + Seq::<char>::empty() =~= r@);
    r
}

/// The text in a buffer that ends at its first zero, or at its end.
pub fn wide_to_string(buf: &[u16]) -> (r: String)
    ensures
        r@ == decode_utf16(until_nul(buf@)),
{
    let mut len: usize = 0;
    let mut head: Vec<u16> = Vec::new();
    assert(buf@.skip(0) =~= buf@);
    while len < buf.len() && buf[len] != 0
        invariant
            len <= buf.len(),
            head@ + until_nul(buf@.skip(len as int)) == until_nul(buf@),
        decreases buf.len() - len,
    {
        let ghost rest = buf@.skip(len as int);
        let ghost before = head@;
        head.push(buf[len]);
        len = len + 1;
        assert(rest.skip(1) =~= buf@.skip(len as int));
        assert(before + until_nul(rest) =~= head@ + until_nul(rest.skip(1)));
    }
    assert(until_nul(buf@.skip(len as int)) =~= Seq::<u16>::empty());
    assert(head@ =~= until_nul(buf@));
    from_utf16_lossy(head.as_slice())
}

/// What is encoded decodes to what it was.
pub proof fn law_utf16_reads_back(s: Seq<char>)
    ensures
        decode_utf16(utf16(s)) == s,
    decreases s.len(),
{
    if s.len() > 0 {
        let u = char_units(s[0]);
        let w = utf16(s);
        let rest = utf16(s.skip(1));
        law_utf16_reads_back(s.skip(1));
        lemma_char(s[0]);
        assert(w[0] == u[0]);
        if u.len() == 2 {
            assert(w[1] == u[1]);
            assert(w.skip(2) =~= rest);
            assert(paired(u[0], u[1]) == s[0]);
        } else {
            assert(w.skip(1) =~= rest);
            assert(u[0] as char == s[0]);
        }
        assert(seq![s[0]] + s.skip(1) =~= s);
    }
}

proof fn lemma_until_nul(s: Seq<char>, tail: Seq<u16>)
    requires
        forall|i: int| 0 <= i < s.len() ==> s[i] != '\0',
    ensures
        until_nul(utf16(s) + seq![0u16] + tail) == utf16(s),
    decreases s.len(),
{
    reveal_with_fuel(until_nul, 3);
    let w = utf16(s) + seq![0u16] + tail;
    if s.len() == 0 {
        assert(w[0] == 0);
    } else {
        let u = char_units(s[0]);
        let more = utf16(s.skip(1)) + seq![0u16] + tail;
        assert forall|i: int| 0 <= i < s.skip(1).len() implies s.skip(1)[i] != '\0' by {
            assert(s[i + 1] != '\0');
        }
        lemma_until_nul(s.skip(1), tail);
        lemma_char(s[0]);
        assert(s[0] as u32 != 0);
        assert(w[0] == u[0]);
        if u.len() == 2 {
            assert(w[1] == u[1]);
            assert(w.skip(1).skip(1) =~= more);
            assert(w.skip(1)[0] == u[1]);
            assert(until_nul(w) =~= seq![u[0]] + (seq![u[1]] + until_nul(more)));
        } else {
            assert(w.skip(1) =~= more);
        }
        assert(until_nul(w) =~= utf16(s));
    }
}

/// A text without a zero comes back from its zero-terminated form, whatever
/// stands behind the zero.
pub proof fn law_wide_reads_back(s: Seq<char>, tail: Seq<u16>)
    requires
        forall|i: int| 0 <= i < s.len() ==> s[i] != '\0',
    ensures
        decode_utf16(until_nul(utf16(s).push(0) + tail)) == s,
{
    assert(utf16(s).push(0) + tail =~= utf16(s) + seq![0u16] + tail);
    lemma_until_nul(s, tail);
    law_utf16_reads_back(s);
}

/// A character in UTF-16: below 65536 one unit, the number itself; beyond, a
/// unit from 0xD800 on with the upper ten bits of what is above 65536, and a
/// unit from 0xDC00 on with the lower ten.
pub proof fn law_char_units(c: char)
    ensures
        (c as int) < 0x1_0000 ==> char_units(c).len() == 1 && char_units(c)[0] == c as int,
        c as int >= 0x1_0000 ==> {
            &&& char_units(c).len() == 2
            &&& 0xd800 <= char_units(c)[0] < 0xdc00
            &&& 0xdc00 <= char_units(c)[1] < 0xe000
            &&& (char_units(c)[0] - 0xd800) * 1024 + (char_units(c)[1] - 0xdc00) == c as int
                - 0x1_0000
        },
{
    lemma_char(c);
}

/// Texts are encoded character by character.
pub proof fn law_utf16_of_a_sum(s: Seq<char>, t: Seq<char>, c: char)
    ensures
        utf16(s + t) == utf16(s) + utf16(t),
        utf16(seq![c]) == char_units(c),
    decreases t.len(),
{
    assert(seq![c] =~= Seq::<char>::empty().push(c));
    lemma_utf16_push(Seq::empty(), c);
    assert(utf16(Seq::<char>::empty()) + char_units(c) =~= char_units(c));
    if t.len() == 0 {
        assert(s + t =~= s);
        assert(utf16(s) + utf16(t) =~= utf16(s));
    } else {
        let u = t.drop_last();
        law_utf16_of_a_sum(s, u, c);
        lemma_utf16_push(s + u, t.last());
        lemma_utf16_push(u, t.last());
        assert((s + u).push(t.last()) =~= s + t);
        assert(u.push(t.last()) =~= t);
        assert(utf16(s + t) =~= utf16(s) + utf16(t));
    }
}

/// Units are decoded from the front: a pair of halves as one character, a half
/// without its other half as the replacement character, and any other unit as
/// the character with its number.
pub proof fn law_decode_from_the_front(u: u16, rest: Seq<u16>)
    ensures
        !(0xd800 <= u < 0xe000) ==> decode_utf16(seq![u] + rest) == seq![u as char] + decode_utf16(
            rest,
        ),
        0xd800 <= u < 0xdc00 && rest.len() > 0 && 0xdc00 <= rest[0] < 0xe000 ==> decode_utf16(
            seq![u] + rest,
        ) == seq![(0x1_0000 + (u - 0xd800) * 1024 + (rest[0] - 0xdc00)) as char] + decode_utf16(
            rest.skip(1),
        ),
        0xdc00 <= u < 0xe000 || 0xd800 <= u < 0xdc00 && (rest.len() == 0 || !(0xdc00 <= rest[0]
            < 0xe000)) ==> decode_utf16(seq![u] + rest) == seq!['\u{fffd}'] + decode_utf16(rest),
        decode_utf16(Seq::empty()) == Seq::<char>::empty(),
{
    let s = seq![u] + rest;
    assert(s[0] == u);
    assert(s.skip(1) =~= rest);
    if rest.len() > 0 {
        assert(s[1] == rest[0]);
        assert(s.skip(2) =~= rest.skip(1));
    }
}

/// What stands before the first zero: a front part of the units, without a zero,
/// and with a zero behind it unless it is the whole.
pub proof fn law_until_nul(s: Seq<u16>)
    ensures
        until_nul(s).len() <= s.len(),
        until_nul(s) == s.take(until_nul(s).len() as int),
        forall|i: int| 0 <= i < until_nul(s).len() ==> #[trigger] until_nul(s)[i] != 0,
        until_nul(s).len() < s.len() ==> s[until_nul(s).len() as int] == 0,
    decreases s.len(),
{
    if s.len() > 0 && s[0] != 0 {
        let rest = s.skip(1);
        law_until_nul(rest);
        let r = until_nul(rest);
        assert(until_nul(s) =~= s.take(until_nul(s).len() as int)) by {
            assert forall|i: int| 0 < i < until_nul(s).len() implies until_nul(s)[i] == s[i] by {
                assert(r[i - 1] == rest.take(r.len() as int)[i - 1]);
            }
        }
        assert forall|i: int| 0 <= i < until_nul(s).len() implies #[trigger] until_nul(s)[i]
            != 0 by {
            if i > 0 {
                assert(until_nul(s)[i] == r[i - 1]);
            }
        }
    }
}

/// Units as bytes: two for each, the remainder by 256 and the quotient.
pub proof fn law_unit_bytes(s: Seq<u16>, i: int)
    requires
        0 <= i < s.len(),
    ensures
        le_units(s).len() == 2 * s.len(),
        le_units(s)[2 * i] == s[i] % 256,
        le_units(s)[2 * i + 1] == s[i] / 256,
    decreases s.len(),
{
    reveal_with_fuel(le_units, 2);
    let init = s.drop_last();
    if init.len() > 0 {
        law_unit_bytes(init, if i < init.len() {
            i
        } else {
            0
        });
    }
}

} // verus!

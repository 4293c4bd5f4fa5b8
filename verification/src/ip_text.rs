//! The canonical text of an IP address, and the law that reading it back gives
//! the address.

use crate::ip::{
    colon_parts, digit_value, gap_from, groups, groups_value, hextets, ints, ip_literal, is_number,
    number_value, octet, split, v4_literal, v6_literal, IpAddr,
};
use crate::text::{decimal, digit, hex, push_decimal, push_hex};
use vstd::prelude::*;

verus! {

/// The `count` digits of a number to the base 65536, most significant first.
pub open spec fn segments_of(n: nat, count: nat) -> Seq<int>
    decreases count,
{
    if count == 0 {
        Seq::empty()
    } else {
        segments_of(n / 0x1_0000, (count - 1) as nat).push((n % 0x1_0000) as int)
    }
}

/// Dotted decimal.
pub open spec fn v4_text(n: nat) -> Seq<char> {
    decimal(n / 0x100_0000) + seq!['.'] + decimal(n / 0x1_0000 % 0x100) + seq!['.'] + decimal(
        n / 0x100 % 0x100,
    ) + seq!['.'] + decimal(n % 0x100)
}

/// Groups in hexadecimal, with colons between them.
pub open spec fn colon_text(g: Seq<int>) -> Seq<char>
    decreases g.len(),
{
    if g.len() == 0 {
        Seq::empty()
    } else if g.len() == 1 {
        hex(g[0] as nat)
    } else {
        colon_text(g.drop_last()) + seq![':'] + hex(g.last() as nat)
    }
}

/// The groups from `start` on, `len` of them, are all zero.
pub open spec fn is_zero_run(g: Seq<int>, start: int, len: int) -> bool {
    &&& 0 <= start
    &&& 0 <= len
    &&& start + len <= g.len()
    &&& forall|i: int| start <= i < start + len ==> g[i] == 0
}

/// The first of the longest runs of zero groups.
pub open spec fn is_longest_run(g: Seq<int>, start: int, len: int) -> bool {
    &&& is_zero_run(g, start, len)
    &&& forall|s: int, l: int| #[trigger]
        is_zero_run(g, s, l) ==> l <= len && (l == len ==> start <= s)
}

/// The last four bytes hold an IPv4 address that is mapped into IPv6.
pub open spec fn is_v4_mapped(g: Seq<int>) -> bool {
    &&& g.len() == 8
    &&& g[0] == 0 && g[1] == 0 && g[2] == 0 && g[3] == 0 && g[4] == 0
    &&& g[5] == 0xffff
}

/// The first longest run of two or more zero groups is written `::`; a mapped
/// IPv4 address is written in dotted decimal.
pub open spec fn v6_text(g: Seq<int>) -> Seq<char> {
    if is_v4_mapped(g) {
        "::ffff:"@ + v4_text((g[6] * 0x1_0000 + g[7]) as nat)
    } else {
        let run = choose|run: (int, int)| is_longest_run(g, run.0, run.1);
        if run.1 > 1 {
            colon_text(g.take(run.0)) + "::"@ + colon_text(g.skip(run.0 + run.1))
        } else {
            colon_text(g)
        }
    }
}

/// The canonical text of an address.
pub open spec fn ip_text(ip: IpAddr) -> Seq<char> {
    match ip {
        IpAddr::V4(n) => v4_text(n as nat),
        IpAddr::V6(n) => v6_text(segments_of(n as nat, 8)),
    }
}

fn push_v4(s: &mut String, n: u32)
    ensures
        final(s)@ == old(s)@ + v4_text(n as nat),
{
    push_decimal(s, (n / 0x100_0000) as u64);
    s.push('.');
    push_decimal(s, (n / 0x1_0000 % 0x100) as u64);
    s.push('.');
    push_decimal(s, (n / 0x100 % 0x100) as u64);
    s.push('.');
    push_decimal(s, (n % 0x100) as u64);
    assert(s@ == old(s)@ + v4_text(n as nat));
}

fn push_groups(s: &mut String, g: &[u16])
    ensures
        final(s)@ == old(s)@ + colon_text(ints(g@)),
{
    let mut i: usize = 0;
    assert(s@ == old(s)@ + colon_text(ints(g@.take(0))));
    while i < g.len()
        invariant
            i <= g@.len(),
            s@ == old(s)@ + colon_text(ints(g@.take(i as int))),
        decreases g@.len() - i,
    {
        let ghost t = ints(g@.take(i + 1));
        assert(t.drop_last() == ints(g@.take(i as int)));
        assert(t.last() == g@[i as int]);
        if i > 0 {
            s.push(':');
        }
        push_hex(s, g[i] as u32);
        i = i + 1;
        assert(s@ == old(s)@ + colon_text(t));
    }
    assert(g@.take(g@.len() as int) == g@);
}

/// The eight groups of an IPv6 address.
fn segments(n: u128) -> (g: Vec<u16>)
    ensures
        g@.len() == 8,
        ints(g@) == segments_of(n as nat, 8),
{
    let a: u128 = n / 0x1_0000;
    let b: u128 = a / 0x1_0000;
    let c: u128 = b / 0x1_0000;
    let d: u128 = c / 0x1_0000;
    let e: u128 = d / 0x1_0000;
    let f: u128 = e / 0x1_0000;
    let h: u128 = f / 0x1_0000;
    let mut g: Vec<u16> = Vec::new();
    g.push((h % 0x1_0000) as u16);
    g.push((f % 0x1_0000) as u16);
    g.push((e % 0x1_0000) as u16);
    g.push((d % 0x1_0000) as u16);
    g.push((c % 0x1_0000) as u16);
    g.push((b % 0x1_0000) as u16);
    g.push((a % 0x1_0000) as u16);
    g.push((n % 0x1_0000) as u16);
    proof {
        reveal_with_fuel(segments_of, 9);
    }
    assert(ints(g@) =~= segments_of(n as nat, 8));
    g
}

/// Finds the first longest run of zero groups.
fn longest_run(g: &Vec<u16>) -> (r: (usize, usize))
    ensures
        is_longest_run(ints(g@), r.0 as int, r.1 as int),
{
    let ghost w = ints(g@);
    let mut start: usize = 0;
    let mut len: usize = 0;
    let mut cur: usize = 0;
    let mut i: usize = 0;
    while i < g.len()
        invariant
            i <= g@.len(),
            w == ints(g@),
            cur <= i,
            start + len <= i,
            is_zero_run(w, start as int, len as int),
            is_zero_run(w, i - cur, cur as int),
            cur < i ==> w[i - cur - 1] != 0,
            forall|s: int, l: int| #[trigger]
                is_zero_run(w, s, l) && s + l <= i ==> l <= len && (l == len ==> start <= s),
        decreases g@.len() - i,
    {
        let ghost old_len = len;
        let ghost old_cur = cur;
        let ghost old_start = start;
        if g[i] == 0 {
            cur = cur + 1;
            if cur > len {
                len = cur;
                start = i + 1 - cur;
            }
        } else {
            cur = 0;
        }
        i = i + 1;
        assert forall|s: int, l: int| #[trigger]
            is_zero_run(w, s, l) && s + l <= i implies l <= len && (l == len ==> start <= s) by {
            if s + l == i && l > 0 {
                assert(w[i - 1] == 0);
                if s < i - cur {
                    assert(w[i - cur - 1] == 0);
                }
                assert(l <= cur);
                if l == old_len && l == len {
                    assert(is_zero_run(w, old_start as int, old_len as int));
                }
            } else if l == 0 {
                assert(is_zero_run(w, s, 0int));
            }
        }
    }
    (start, len)
}

/// There is only one first longest run.
proof fn lemma_longest_run_unique(g: Seq<int>, a: (int, int), b: (int, int))
    requires
        is_longest_run(g, a.0, a.1),
        is_longest_run(g, b.0, b.1),
    ensures
        a == b,
{
}

/// The canonical text of an address.
pub fn format_ip(ip: IpAddr) -> (s: String)
    ensures
        s@ == ip_text(ip),
{
    let mut s: String = String::new();
    match ip {
        IpAddr::V4(n) => {
            push_v4(&mut s, n);
        },
        IpAddr::V6(n) => {
            let g = segments(n);
            let ghost w = ints(g@);
            if g[0] == 0 && g[1] == 0 && g[2] == 0 && g[3] == 0 && g[4] == 0 && g[5] == 0xffff {
                s.append("::ffff:");
                push_v4(&mut s, g[6] as u32 * 0x1_0000 + g[7] as u32);
            } else {
                let (start, len) = longest_run(&g);
                proof {
                    let run = choose|run: (int, int)| is_longest_run(w, run.0, run.1);
                    assert(is_longest_run(w, (start as int, len as int).0, (start as int, len as int).1));
                    lemma_longest_run_unique(w, run, (start as int, len as int));
                }
                if len > 1 {
                    let (head, rest) = g.as_slice().split_at(start);
                    let (zeros, tail) = rest.split_at(len);
                    push_groups(&mut s, head);
                    s.append("::");
                    push_groups(&mut s, tail);
                    assert(ints(head@) == w.take(start as int));
                    assert(ints(tail@) == w.skip(start + len));
                } else {
                    push_groups(&mut s, g.as_slice());
                }
            }
        },
    }
    assert(s@ == ip_text(ip));
    s
}

/// A text without the separator is its own only part.
pub(crate) proof fn lemma_split_one(s: Seq<char>, sep: char)
    requires
        forall|i: int| 0 <= i < s.len() ==> s[i] != sep,
    ensures
        split(s, sep) == seq![s],
    decreases s.len(),
{
    if s.len() > 0 {
        lemma_split_one(s.drop_last(), sep);
        assert(s.drop_last().push(s.last()) == s);
    } else {
        assert(s == Seq::<char>::empty());
    }
}

/// What follows the last separator is the last part.
pub(crate) proof fn lemma_split_last(a: Seq<char>, b: Seq<char>, sep: char)
    requires
        forall|i: int| 0 <= i < b.len() ==> b[i] != sep,
    ensures
        split(a + seq![sep] + b, sep) == split(a, sep).push(b),
    decreases b.len(),
{
    let s = a + seq![sep] + b;
    if b.len() == 0 {
        assert(s.drop_last() == a);
        assert(b == Seq::<char>::empty());
    } else {
        lemma_split_last(a, b.drop_last(), sep);
        assert(s.drop_last() == a + seq![sep] + b.drop_last());
        assert(b.drop_last().push(b.last()) == b);
    }
}

/// The text of a number holds decimal digits only, without a leading zero, and
/// denotes the number.
pub(crate) proof fn lemma_decimal(n: nat)
    ensures
        is_number(decimal(n), 10),
        number_value(decimal(n), 10) == n,
        forall|i: int| 0 <= i < decimal(n).len() ==> '0' <= #[trigger] decimal(n)[i] <= '9',
        n < 10 ==> decimal(n).len() == 1,
        10 <= n ==> decimal(n).len() > 1 && decimal(n)[0] != '0',
        n < 100 ==> decimal(n).len() <= 2,
        n < 1000 ==> decimal(n).len() <= 3,
    decreases n,
{
    reveal_with_fuel(number_value, 2);
    if n < 10 {
        assert(decimal(n).drop_last() == Seq::<char>::empty());
    } else {
        lemma_decimal(n / 10);
        assert(decimal(n).drop_last() == decimal(n / 10));
        if n / 10 < 10 {
            assert(n / 10 >= 1);
            assert(decimal(n)[0] == digit((n / 10) as int));
        } else {
            assert(decimal(n)[0] == decimal(n / 10)[0]);
        }
        assert forall|i: int| 0 <= i < decimal(n).len() implies '0' <= #[trigger] decimal(n)[i]
            <= '9' by {
            if i < decimal(n).len() - 1 {
                assert(decimal(n)[i] == decimal(n / 10)[i]);
            }
        }
    }
}

/// The text of a group holds hexadecimal digits only and denotes the group.
pub(crate) proof fn lemma_hex(n: nat)
    ensures
        is_number(hex(n), 16),
        number_value(hex(n), 16) == n,
        forall|i: int| 0 <= i < hex(n).len() ==> #[trigger] hex(n)[i] != ':' && hex(n)[i] != '.',
        n < 0x10 ==> hex(n).len() <= 1,
        n < 0x100 ==> hex(n).len() <= 2,
        n < 0x1000 ==> hex(n).len() <= 3,
        n < 0x1_0000 ==> hex(n).len() <= 4,
    decreases n,
{
    reveal_with_fuel(number_value, 2);
    if n < 16 {
        assert(hex(n).drop_last() == Seq::<char>::empty());
    } else {
        lemma_hex(n / 16);
        assert(hex(n).drop_last() == hex(n / 16));
        assert forall|i: int| 0 <= i < hex(n).len() implies #[trigger] hex(n)[i] != ':' && hex(
            n,
        )[i] != '.' by {
            if i < hex(n).len() - 1 {
                assert(hex(n)[i] == hex(n / 16)[i]);
            }
        }
        assert forall|i: int| 0 <= i < hex(n).len() implies (#[trigger] digit_value(
            hex(n)[i],
        )) is Some && digit_value(hex(n)[i])->0 < 16 by {
            if i < hex(n).len() - 1 {
                assert(hex(n)[i] == hex(n / 16)[i]);
            }
        }
    }
}

/// The four parts of dotted decimal.
#[verifier::spinoff_prover]
proof fn lemma_v4_split(n: nat)
    requires
        n < 0x1_0000_0000,
    ensures
        split(v4_text(n), '.') == seq![
            decimal(n / 0x100_0000),
            decimal(n / 0x1_0000 % 0x100),
            decimal(n / 0x100 % 0x100),
            decimal(n % 0x100),
        ],
{
    let a = n / 0x100_0000;
    let b = n / 0x1_0000 % 0x100;
    let c = n / 0x100 % 0x100;
    let d = n % 0x100;
    lemma_decimal(a);
    lemma_decimal(b);
    lemma_decimal(c);
    lemma_decimal(d);
    let dot = seq!['.'];
    let s1 = decimal(a);
    let s2 = s1 + dot + decimal(b);
    let s3 = s2 + dot + decimal(c);
    let s4 = s3 + dot + decimal(d);
    lemma_split_one(s1, '.');
    lemma_split_last(s1, decimal(b), '.');
    lemma_split_last(s2, decimal(c), '.');
    lemma_split_last(s3, decimal(d), '.');
    assert(s4 == v4_text(n));
    assert(split(s4, '.') == seq![decimal(a), decimal(b), decimal(c), decimal(d)]);
}

/// Dotted decimal holds no colon.
#[verifier::spinoff_prover]
proof fn lemma_v4_no_colon(n: nat)
    ensures
        forall|i: int| 0 <= i < v4_text(n).len() ==> #[trigger] v4_text(n)[i] != ':',
{
    let a = decimal(n / 0x100_0000);
    let b = decimal(n / 0x1_0000 % 0x100);
    let c = decimal(n / 0x100 % 0x100);
    let d = decimal(n % 0x100);
    lemma_decimal(n / 0x100_0000);
    lemma_decimal(n / 0x1_0000 % 0x100);
    lemma_decimal(n / 0x100 % 0x100);
    lemma_decimal(n % 0x100);
    let s = v4_text(n);
    let i1 = a.len();
    let i2 = i1 + 1 + b.len();
    let i3 = i2 + 1 + c.len();
    assert forall|i: int| 0 <= i < s.len() implies #[trigger] s[i] != ':' by {
        if i < i1 {
            assert(s[i] == a[i]);
        } else if i1 < i < i2 {
            assert(s[i] == b[i - i1 - 1]);
        } else if i2 < i < i3 {
            assert(s[i] == c[i - i2 - 1]);
        } else if i3 < i {
            assert(s[i] == d[i - i3 - 1]);
        } else {
            assert(s[i] == '.');
        }
    }
}

/// A number below 256 in decimal is an octet.
proof fn lemma_octet(n: nat)
    requires
        n < 0x100,
    ensures
        octet(decimal(n)) == Some(n as int),
{
    lemma_decimal(n);
}

/// A number is made of its four octets.
proof fn lemma_octets(n: nat)
    requires
        n < 0x1_0000_0000,
    ensures
        n / 0x100_0000 < 0x100,
        (n / 0x100_0000) * 0x100_0000 + (n / 0x1_0000 % 0x100) * 0x1_0000 + (n / 0x100 % 0x100)
            * 0x100 + n % 0x100 == n,
{
}

/// Four octets make an address.
pub(crate) proof fn lemma_four_octets(s: Seq<char>, a: nat, b: nat, c: nat, d: nat)
    requires
        a < 0x100,
        b < 0x100,
        c < 0x100,
        d < 0x100,
        split(s, '.') == seq![decimal(a), decimal(b), decimal(c), decimal(d)],
    ensures
        v4_literal(s) == Some((a * 0x100_0000 + b * 0x1_0000 + c * 0x100 + d) as int),
{
    lemma_octet(a);
    lemma_octet(b);
    lemma_octet(c);
    lemma_octet(d);
    let parts = split(s, '.');
    assert(parts[0] == decimal(a));
    assert(parts[1] == decimal(b));
    assert(parts[2] == decimal(c));
    assert(parts[3] == decimal(d));
}

/// Dotted decimal reads back.
proof fn lemma_v4_reads_back(n: nat)
    requires
        n < 0x1_0000_0000,
    ensures
        v4_literal(v4_text(n)) == Some(n as int),
        forall|i: int| 0 <= i < v4_text(n).len() ==> #[trigger] v4_text(n)[i] != ':',
{
    lemma_v4_split(n);
    lemma_octets(n);
    lemma_four_octets(
        v4_text(n),
        n / 0x100_0000,
        n / 0x1_0000 % 0x100,
        n / 0x100 % 0x100,
        n % 0x100,
    );
    lemma_v4_no_colon(n);
}

/// A text with a character other than the separator and the digits is no IPv4
/// literal.
proof fn lemma_split_keeps_chars(s: Seq<char>, sep: char, bad: char)
    requires
        bad != sep,
        forall|j: int, k: int|
            0 <= j < split(s, sep).len() && 0 <= k < split(s, sep)[j].len()
                ==> #[trigger] split(s, sep)[j][k] != bad,
    ensures
        split(s, sep).len() > 0,
        forall|i: int| 0 <= i < s.len() ==> s[i] != bad,
    decreases s.len(),
{
    if s.len() > 0 {
        let parts = split(s.drop_last(), sep);
        lemma_split_nonempty(s.drop_last(), sep);
        let whole = split(s, sep);
        assert forall|j: int, k: int|
            0 <= j < parts.len() && 0 <= k < parts[j].len() implies #[trigger] parts[j][k]
            != bad by {
            assert(whole[j][k] == parts[j][k]);
        }
        lemma_split_keeps_chars(s.drop_last(), sep, bad);
        if s.last() != sep {
            let last = whole[parts.len() - 1];
            assert(last[last.len() - 1] == s.last());
        }
        assert forall|i: int| 0 <= i < s.len() implies s[i] != bad by {
            if i < s.len() - 1 {
                assert(s.drop_last()[i] == s[i]);
            }
        }
    }
}

proof fn lemma_split_nonempty(s: Seq<char>, sep: char)
    ensures
        split(s, sep).len() > 0,
    decreases s.len(),
{
    if s.len() > 0 {
        lemma_split_nonempty(s.drop_last(), sep);
    }
}

/// No IPv4 literal holds a colon.
pub(crate) proof fn lemma_v4_has_no_colon(s: Seq<char>)
    requires
        v4_literal(s) is Some,
    ensures
        forall|i: int| 0 <= i < s.len() ==> s[i] != ':',
{
    let parts = split(s, '.');
    assert forall|j: int, k: int|
        0 <= j < parts.len() && 0 <= k < parts[j].len() implies #[trigger] parts[j][k] != ':' by {
        assert(octet(parts[j]) is Some);
        assert(digit_value(parts[j][k]) is Some);
    }
    lemma_split_keeps_chars(s, '.', ':');
}

/// The texts of the groups.
spec fn hex_parts(g: Seq<int>) -> Seq<Seq<char>> {
    g.map_values(|x: int| hex(x as nat))
}

/// All groups fit in sixteen bits.
pub open spec fn all_groups(g: Seq<int>) -> bool {
    forall|i: int| 0 <= i < g.len() ==> 0 <= #[trigger] g[i] < 0x1_0000
}

/// Colon-separated groups split into the texts of the groups, hold no two
/// colons in a row and neither begin nor end with one.
proof fn lemma_colon_text(g: Seq<int>)
    requires
        all_groups(g),
    ensures
        colon_parts(colon_text(g)) == hex_parts(g),
        g.len() > 0 ==> colon_text(g).len() > 0 && colon_text(g)[0] != ':'
            && colon_text(g).last() != ':',
        forall|i: int|
            0 <= i < colon_text(g).len() - 1 ==> !(#[trigger] colon_text(g)[i] == ':' && colon_text(
                g,
            )[i + 1] == ':'),
    decreases g.len(),
{
    if g.len() == 0 {
        assert(hex_parts(g) == Seq::<Seq<char>>::empty());
    } else if g.len() == 1 {
        lemma_hex(g[0] as nat);
        lemma_split_one(hex(g[0] as nat), ':');
        assert(hex_parts(g) == seq![hex(g[0] as nat)]);
    } else {
        let front = g.drop_last();
        let last = hex(g.last() as nat);
        lemma_colon_text(front);
        lemma_hex(g.last() as nat);
        lemma_split_last(colon_text(front), last, ':');
        assert(hex_parts(g) == hex_parts(front).push(last));
        let s = colon_text(g);
        let f = colon_text(front);
        assert(s == f + seq![':'] + last);
        assert(s[0] == f[0]);
        assert forall|i: int| 0 <= i < s.len() - 1 implies !(#[trigger] s[i] == ':' && s[i + 1]
            == ':') by {
            if i < f.len() - 1 {
                assert(s[i] == f[i] && s[i + 1] == f[i + 1]);
            } else if i == f.len() - 1 {
                assert(s[i] == f.last());
            } else if i == f.len() {
                assert(s[i + 1] == last[0]);
            } else {
                assert(s[i] == last[i - f.len() - 1]);
            }
        }
    }
}

/// The texts of the groups read back, and none of them is an IPv4 literal.
proof fn lemma_hex_parts(g: Seq<int>)
    requires
        all_groups(g),
    ensures
        hextets(hex_parts(g)) == Some(g),
        groups(hex_parts(g)) == Some(g),
    decreases g.len(),
{
    let parts = hex_parts(g);
    if g.len() == 0 {
        assert(g == Seq::<int>::empty());
    } else {
        assert(parts.drop_last() == hex_parts(g.drop_last()));
        assert(parts.last() == hex(g.last() as nat));
        lemma_hex_parts(g.drop_last());
        lemma_hex(g.last() as nat);
        lemma_split_one(parts.last(), '.');
        assert(g.drop_last().push(g.last()) == g);
    }
}

/// With no `::` from `from` on, none is found.
pub(crate) proof fn lemma_no_gap(s: Seq<char>, from: int)
    requires
        0 <= from,
        forall|i: int| from <= i < s.len() - 1 ==> !(#[trigger] s[i] == ':' && s[i + 1] == ':'),
    ensures
        gap_from(s, from) is None,
    decreases s.len() - from,
{
    if from + 1 < s.len() {
        assert(!(s[from] == ':' && s[from + 1] == ':'));
        lemma_no_gap(s, from + 1);
    }
}

/// The first `::` is found.
pub(crate) proof fn lemma_gap_at(s: Seq<char>, from: int, k: int)
    requires
        0 <= from <= k,
        k + 1 < s.len(),
        s[k] == ':',
        s[k + 1] == ':',
        forall|i: int| from <= i < k ==> !(#[trigger] s[i] == ':' && s[i + 1] == ':'),
    ensures
        gap_from(s, from) == Some(k),
    decreases k - from,
{
    if from < k {
        assert(!(s[from] == ':' && s[from + 1] == ':'));
        lemma_gap_at(s, from + 1, k);
    }
}

/// `head::tail` reads as the head, zeros, and the tail.
proof fn lemma_compressed_reads_back(g: Seq<int>, start: int, len: int)
    requires
        g.len() == 8,
        all_groups(g),
        is_zero_run(g, start, len),
        len > 1,
    ensures
        v6_literal(colon_text(g.take(start)) + "::"@ + colon_text(g.skip(start + len))) == Some(g),
{
    let head = g.take(start);
    let tail = g.skip(start + len);
    let h = colon_text(head);
    let t = colon_text(tail);
    reveal_strlit("::");
    let s = h + "::"@ + t;
    lemma_colon_text(head);
    lemma_colon_text(tail);
    lemma_hex_parts(head);
    lemma_hex_parts(tail);
    assert(s[h.len() as int] == ':' && s[h.len() as int + 1] == ':');
    assert forall|i: int| 0 <= i < h.len() implies !(#[trigger] s[i] == ':' && s[i + 1]
        == ':') by {
        if i < h.len() - 1 {
            assert(s[i] == h[i] && s[i + 1] == h[i + 1]);
        } else {
            assert(s[i] == h.last());
        }
    }
    lemma_gap_at(s, 0, h.len() as int);
    assert(s.take(h.len() as int) == h);
    assert(s.skip(h.len() as int + 2) == t);
    assert(head + Seq::new((8 - head.len() - tail.len()) as nat, |i: int| 0int) + tail =~= g);
}

/// The group before a mapped IPv4 address.
proof fn lemma_mapped_group()
    ensures
        hextets(seq![seq!['f', 'f', 'f', 'f']]) == Some(seq![0xffffint]),
{
    let ffff = seq!['f', 'f', 'f', 'f'];
    reveal_with_fuel(hextets, 2);
    reveal_with_fuel(number_value, 5);
    assert(seq![ffff].drop_last() == Seq::<Seq<char>>::empty());
    assert(ffff.drop_last() == seq!['f', 'f', 'f']);
    assert(ffff.drop_last().drop_last() == seq!['f', 'f']);
    assert(ffff.drop_last().drop_last().drop_last() == seq!['f']);
    assert(number_value(ffff, 16) == 0xffff);
    assert(is_number(ffff, 16));
    assert(Seq::<int>::empty().push(0xffffint) =~= seq![0xffffint]);
}

/// A mapped IPv4 address reads back.
proof fn lemma_mapped_reads_back(g: Seq<int>)
    requires
        is_v4_mapped(g),
        all_groups(g),
    ensures
        v6_literal("::ffff:"@ + v4_text((g[6] * 0x1_0000 + g[7]) as nat)) == Some(g),
{
    reveal_strlit("::ffff:");
    let n = (g[6] * 0x1_0000 + g[7]) as nat;
    assert(0 <= g[6] < 0x1_0000 && 0 <= g[7] < 0x1_0000);
    lemma_v4_reads_back(n);
    let t = v4_text(n);
    let s = "::ffff:"@ + t;
    assert(s[0] == ':' && s[1] == ':');
    lemma_gap_at(s, 0, 0);
    assert(s.take(0) == Seq::<char>::empty());
    let ffff = seq!['f', 'f', 'f', 'f'];
    assert(s.skip(2) =~= ffff + seq![':'] + t);
    lemma_split_one(ffff, ':');
    lemma_split_last(ffff, t, ':');
    let parts = colon_parts(s.skip(2));
    assert(parts == seq![ffff, t]);
    assert(parts.drop_last() == seq![ffff]);
    lemma_mapped_group();
    let tail = groups(parts)->0;
    assert(tail =~= seq![0xffffint, g[6], g[7]]);
    assert(hextets(colon_parts(s.take(0))) == Some(Seq::<int>::empty()));
    assert(Seq::<int>::empty() + Seq::new(5nat, |i: int| 0int) + tail =~= g);
}

/// The canonical text of an IPv6 address reads back, and holds a colon.
proof fn lemma_v6_reads_back(g: Seq<int>)
    requires
        g.len() == 8,
        all_groups(g),
    ensures
        v6_literal(v6_text(g)) == Some(g),
        v4_literal(v6_text(g)) is None,
{
    let s = v6_text(g);
    if is_v4_mapped(g) {
        lemma_mapped_reads_back(g);
        assert(0 < s.len() && s[0] == ':') by {
            reveal_strlit("::ffff:");
        }
    } else {
        lemma_longest_run_exists(g);
        let run = choose|run: (int, int)| is_longest_run(g, run.0, run.1);
        if run.1 > 1 {
            lemma_compressed_reads_back(g, run.0, run.1);
            let k = colon_text(g.take(run.0)).len() as int;
            assert(0 <= k < s.len() && s[k] == ':') by {
                reveal_strlit("::");
            }
        } else {
            lemma_colon_text(g);
            lemma_hex_parts(g);
            lemma_no_gap(s, 0);
            let f = colon_text(g.drop_last());
            assert(f.len() < s.len() && s[f.len() as int] == ':');
        }
    }
    if v4_literal(s) is Some {
        lemma_v4_has_no_colon(s);
    }
}

/// Some run of zero groups is the first of the longest ones.
pub(crate) proof fn lemma_longest_run_exists(g: Seq<int>)
    ensures
        exists|run: (int, int)| is_longest_run(g, run.0, run.1),
{
    lemma_longest_run_bounded(g, g.len() as int);
}

/// If no run is longer than `max`, there is a first longest one.
proof fn lemma_longest_run_bounded(g: Seq<int>, max: int)
    requires
        0 <= max,
        forall|s: int, l: int| #[trigger] is_zero_run(g, s, l) ==> l <= max,
    ensures
        exists|run: (int, int)| is_longest_run(g, run.0, run.1),
    decreases max,
{
    if exists|s: int| is_zero_run(g, s, max) {
        let s = choose|s: int| is_zero_run(g, s, max);
        lemma_first_run(g, s, max);
        let first = choose|f: int|
            is_zero_run(g, f, max) && forall|s: int| #[trigger]
                is_zero_run(g, s, max) ==> f <= s;
        assert(is_longest_run(g, (first, max).0, (first, max).1));
    } else if max == 0 {
        assert(is_zero_run(g, 0, 0));
    } else {
        lemma_longest_run_bounded(g, max - 1);
    }
}

/// Among the runs of one length there is a first.
proof fn lemma_first_run(g: Seq<int>, s: int, len: int)
    requires
        is_zero_run(g, s, len),
    ensures
        exists|f: int|
            is_zero_run(g, f, len) && forall|s: int| #[trigger]
                is_zero_run(g, s, len) ==> f <= s,
    decreases s,
{
    if exists|t: int| is_zero_run(g, t, len) && t < s {
        let t = choose|t: int| is_zero_run(g, t, len) && t < s;
        lemma_first_run(g, t, len);
    } else {
        assert(is_zero_run(g, s, len));
    }
}

/// The least number that does not fit in `count` groups.
spec fn group_limit(count: nat) -> nat
    decreases count,
{
    if count == 0 {
        1
    } else {
        group_limit((count - 1) as nat) * 0x1_0000
    }
}

/// The groups of a number make up the number.
proof fn lemma_segments(n: nat, count: nat)
    requires
        n < group_limit(count),
    ensures
        segments_of(n, count).len() == count,
        all_groups(segments_of(n, count)),
        groups_value(segments_of(n, count)) == n,
    decreases count,
{
    if count > 0 {
        lemma_segments(n / 0x1_0000, (count - 1) as nat);
        assert(segments_of(n, count).drop_last() == segments_of(
            n / 0x1_0000,
            (count - 1) as nat,
        ));
    }
}

/// Reading the canonical text of an address gives the address.
pub proof fn law_ip_text_reads_back(ip: IpAddr)
    ensures
        ip_literal(ip_text(ip)) == Some(ip),
{
    match ip {
        IpAddr::V4(n) => {
            lemma_v4_reads_back(n as nat);
        },
        IpAddr::V6(n) => {
            reveal_with_fuel(group_limit, 9);
            lemma_segments(n as nat, 8);
            lemma_v6_reads_back(segments_of(n as nat, 8));
        },
    }
}

} // verus!

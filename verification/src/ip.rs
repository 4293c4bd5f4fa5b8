//! IP addresses and their text form.
//!
//! A rule names its destination by an address literal: dotted decimal for
//! IPv4, colon-separated hexadecimal groups for IPv6 with at most one `::`
//! and, at the end, optionally an embedded IPv4 address.

use crate::text::chars_of;
use vstd::prelude::*;

verus! {

/// An IP address: its 32 or 128 bits as one number, first byte of the network
/// order in front.
#[derive(Debug, Clone, Copy, PartialEq, Eq, Structural)]
pub enum IpAddr {
    V4(u32),
    V6(u128),
}

/// The value of a digit character, letters in either case.
pub open spec fn digit_value(c: char) -> Option<int> {
    if '0' <= c <= '9' {
        Some(c as int - '0' as int)
    } else if 'a' <= c <= 'f' {
        Some(c as int - 'a' as int + 10)
    } else if 'A' <= c <= 'F' {
        Some(c as int - 'A' as int + 10)
    } else {
        None
    }
}

/// A nonempty run of digits of the radix.
pub open spec fn is_number(s: Seq<char>, radix: int) -> bool {
    &&& s.len() > 0
    &&& forall|i: int|
        0 <= i < s.len() ==> (#[trigger] digit_value(s[i])) is Some && digit_value(s[i])->0 < radix
}

/// The number that a run of digits denotes.
pub open spec fn number_value(s: Seq<char>, radix: int) -> int
    decreases s.len(),
{
    if s.len() == 0 {
        0
    } else {
        number_value(s.drop_last(), radix) * radix + digit_value(s.last())->0
    }
}

/// The parts of a text between the occurrences of a separator.
pub open spec fn split(s: Seq<char>, sep: char) -> Seq<Seq<char>>
    decreases s.len(),
{
    if s.len() == 0 {
        seq![Seq::empty()]
    } else {
        let parts = split(s.drop_last(), sep);
        if s.last() == sep {
            parts.push(Seq::empty())
        } else {
            parts.update(parts.len() - 1, parts.last().push(s.last()))
        }
    }
}

/// One of the four decimal numbers of an IPv4 literal: up to three digits, no
/// leading zero, below 256.
pub open spec fn octet(s: Seq<char>) -> Option<int> {
    if is_number(s, 10) && s.len() <= 3 && (s.len() == 1 || s[0] != '0') && number_value(s, 10)
        <= 255 {
        Some(number_value(s, 10))
    } else {
        None
    }
}

/// The address that an IPv4 literal denotes.
pub open spec fn v4_literal(s: Seq<char>) -> Option<int> {
    let parts = split(s, '.');
    if parts.len() == 4 && octet(parts[0]) is Some && octet(parts[1]) is Some && octet(
        parts[2],
    ) is Some && octet(parts[3]) is Some {
        Some(
            octet(parts[0])->0 * 0x100_0000 + octet(parts[1])->0 * 0x1_0000 + octet(parts[2])->0
                * 0x100 + octet(parts[3])->0,
        )
    } else {
        None
    }
}

/// One hexadecimal group of an IPv6 literal: one to four digits.
pub open spec fn hextet(s: Seq<char>) -> Option<int> {
    if is_number(s, 16) && s.len() <= 4 {
        Some(number_value(s, 16))
    } else {
        None
    }
}

/// The values of a list of hexadecimal groups.
pub open spec fn hextets(parts: Seq<Seq<char>>) -> Option<Seq<int>>
    decreases parts.len(),
{
    if parts.len() == 0 {
        Some(Seq::empty())
    } else {
        match (hextets(parts.drop_last()), hextet(parts.last())) {
            (Some(front), Some(g)) => Some(front.push(g)),
            _ => None,
        }
    }
}

/// The groups of a list that may end in an embedded IPv4 literal, which
/// counts as two groups.
pub open spec fn groups(parts: Seq<Seq<char>>) -> Option<Seq<int>> {
    if parts.len() > 0 && v4_literal(parts.last()) is Some {
        match hextets(parts.drop_last()) {
            Some(front) => {
                let v4 = v4_literal(parts.last())->0;
                Some(front.push(v4 / 0x1_0000).push(v4 % 0x1_0000))
            },
            None => None,
        }
    } else {
        hextets(parts)
    }
}

/// The parts of a colon-separated text; an empty text has none.
pub open spec fn colon_parts(s: Seq<char>) -> Seq<Seq<char>> {
    if s.len() == 0 {
        Seq::empty()
    } else {
        split(s, ':')
    }
}

/// The place of the first `::` at or after `from`.
pub open spec fn gap_from(s: Seq<char>, from: int) -> Option<int>
    decreases s.len() - from,
{
    if from + 1 >= s.len() {
        None
    } else if s[from] == ':' && s[from + 1] == ':' {
        Some(from)
    } else {
        gap_from(s, from + 1)
    }
}

/// The eight groups that an IPv6 literal denotes. A `::` stands for at least
/// one zero group, and no IPv4 literal may stand before it.
pub open spec fn v6_literal(s: Seq<char>) -> Option<Seq<int>> {
    match gap_from(s, 0) {
        None => match groups(colon_parts(s)) {
            Some(g) => if g.len() == 8 {
                Some(g)
            } else {
                None
            },
            None => None,
        },
        Some(k) => match (hextets(colon_parts(s.take(k))), groups(colon_parts(s.skip(k + 2)))) {
            (Some(head), Some(tail)) => if head.len() + tail.len() <= 7 {
                Some(head + Seq::new((8 - head.len() - tail.len()) as nat, |i: int| 0int) + tail)
            } else {
                None
            },
            _ => None,
        },
    }
}

/// The number whose digits to the base 65536 are the given groups.
pub open spec fn groups_value(g: Seq<int>) -> int
    decreases g.len(),
{
    if g.len() == 0 {
        0
    } else {
        groups_value(g.drop_last()) * 0x1_0000 + g.last()
    }
}

/// The address that a literal denotes, if the text is a literal.
pub open spec fn ip_literal(s: Seq<char>) -> Option<IpAddr> {
    if v4_literal(s) is Some {
        Some(IpAddr::V4(v4_literal(s)->0 as u32))
    } else if v6_literal(s) is Some {
        Some(IpAddr::V6(groups_value(v6_literal(s)->0) as u128))
    } else {
        None
    }
}

/// The characters of each part.
spec fn contents(parts: Seq<Vec<char>>) -> Seq<Seq<char>> {
    parts.map_values(|p: Vec<char>| p@)
}

fn digit_of(c: char, radix: u32) -> (r: Option<u32>)
    requires
        radix <= 16,
    ensures
        r is Some <==> digit_value(c) is Some && digit_value(c)->0 < radix,
        r is Some ==> r->0 as int == digit_value(c)->0,
{
    let n: u32 = c as u32;
    let d: u32 = if 48 <= n && n <= 57 {
        n - 48
    } else if 97 <= n && n <= 102 {
        n - 87
    } else if 65 <= n && n <= 70 {
        n - 55
    } else {
        return None;
    };
    if d < radix {
        Some(d)
    } else {
        None
    }
}

/// Reads a run of up to `max` digits.
fn read_number(s: &[char], radix: u32, max: usize) -> (r: Option<u32>)
    requires
        radix == 10 || radix == 16,
        max <= 4,
    ensures
        r is Some <==> is_number(s@, radix as int) && s@.len() <= max,
        r is Some ==> r->0 as int == number_value(s@, radix as int) && r->0 <= 0xffff,
{
    if s.len() == 0 || s.len() > max {
        return None;
    }
    let mut value: u32 = 0;
    let mut i: usize = 0;
    while i < s.len()
        invariant
            i <= s@.len() <= max <= 4,
            radix == 10 || radix == 16,
            value as int == number_value(s@.take(i as int), radix as int),
            i == 0 ==> value == 0,
            i == 1 ==> value <= 0xf,
            i == 2 ==> value <= 0xff,
            i == 3 ==> value <= 0xfff,
            i == 4 ==> value <= 0xffff,
            forall|j: int|
                0 <= j < i ==> (#[trigger] digit_value(s@[j])) is Some && digit_value(s@[j])->0
                    < radix,
        decreases s@.len() - i,
    {
        match digit_of(s[i], radix) {
            None => {
                assert(!(digit_value(s@[i as int]) is Some && digit_value(s@[i as int])->0 < radix));
                return None;
            },
            Some(d) => {
                assert(s@.take(i + 1).drop_last() == s@.take(i as int));
                assert(s@.take(i + 1).last() == s@[i as int]);
                assert(value * radix <= value * 16) by (nonlinear_arith)
                    requires
                        radix <= 16,
                ;
                value = value * radix + d;
                i = i + 1;
            },
        }
    }
    assert(s@.take(s@.len() as int) == s@);
    Some(value)
}

/// Splits at each occurrence of the separator.
fn split_chars(s: &[char], sep: char) -> (parts: Vec<Vec<char>>)
    ensures
        parts@.len() >= 1,
        contents(parts@) == split(s@, sep),
{
    let mut done: Vec<Vec<char>> = Vec::new();
    let mut cur: Vec<char> = Vec::new();
    let mut i: usize = 0;
    assert(contents(done@).push(cur@) == split(s@.take(0), sep));
    while i < s.len()
        invariant
            i <= s@.len(),
            contents(done@).push(cur@) == split(s@.take(i as int), sep),
        decreases s@.len() - i,
    {
        let c: char = s[i];
        let ghost before = split(s@.take(i as int), sep);
        assert(s@.take(i + 1).drop_last() == s@.take(i as int));
        assert(s@.take(i + 1).last() == c);
        let ghost old_done = done@;
        let ghost old_cur = cur@;
        if c == sep {
            done.push(cur);
            cur = Vec::new();
            assert(contents(done@) == contents(old_done).push(old_cur));
            assert(contents(done@).push(cur@) == before.push(Seq::empty()));
        } else {
            cur.push(c);
            assert(contents(done@).push(cur@) == before.update(
                before.len() - 1,
                before.last().push(c),
            ));
        }
        i = i + 1;
    }
    assert(s@.take(s@.len() as int) == s@);
    let ghost old_done = done@;
    let ghost last = cur@;
    done.push(cur);
    assert(contents(done@) == contents(old_done).push(last));
    done
}

fn read_octet(s: &[char]) -> (r: Option<u32>)
    ensures
        r is Some <==> octet(s@) is Some,
        r is Some ==> r->0 as int == octet(s@)->0 && r->0 <= 255,
{
    match read_number(s, 10, 3) {
        Some(v) => {
            if (s.len() == 1 || s[0] != '0') && v <= 255 {
                Some(v)
            } else {
                None
            }
        },
        None => None,
    }
}

fn read_v4(s: &[char]) -> (r: Option<u32>)
    ensures
        r is Some <==> v4_literal(s@) is Some,
        r is Some ==> r->0 as int == v4_literal(s@)->0,
{
    let parts = split_chars(s, '.');
    let ghost p = split(s@, '.');
    assert(p.len() == parts@.len());
    if parts.len() != 4 {
        return None;
    }
    assert(p[0] == parts@[0]@ && p[1] == parts@[1]@ && p[2] == parts@[2]@ && p[3] == parts@[3]@);
    match (
        read_octet(parts[0].as_slice()),
        read_octet(parts[1].as_slice()),
        read_octet(parts[2].as_slice()),
        read_octet(parts[3].as_slice()),
    ) {
        (Some(a), Some(b), Some(c), Some(d)) => {
            Some(a * 0x100_0000 + b * 0x1_0000 + c * 0x100 + d)
        },
        _ => None,
    }
}

/// Reads the first `n` parts as hexadecimal groups.
fn read_hextets(parts: &Vec<Vec<char>>, n: usize) -> (r: Option<Vec<u16>>)
    requires
        n <= parts@.len(),
    ensures
        r is Some <==> hextets(contents(parts@).take(n as int)) is Some,
        r is Some ==> ints(r->0@) == hextets(contents(parts@).take(n as int))->0,
{
    let ghost all = contents(parts@);
    let mut out: Vec<u16> = Vec::new();
    let mut i: usize = 0;
    assert(all.take(0) == Seq::<Seq<char>>::empty());
    assert(ints(out@) == Seq::<int>::empty());
    while i < n
        invariant
            i <= n <= parts@.len(),
            all == contents(parts@),
            hextets(all.take(i as int)) is Some,
            ints(out@) == hextets(all.take(i as int))->0,
        decreases n - i,
    {
        assert(all.take(i + 1).drop_last() == all.take(i as int));
        assert(all.take(i + 1).last() == parts@[i as int]@);
        match read_number(parts[i].as_slice(), 16, 4) {
            None => {
                proof {
                    if hextets(all.take(n as int)) is Some {
                        lemma_hextets_prefix(all.take(n as int), i + 1);
                        assert(all.take(n as int).take(i + 1) == all.take(i + 1));
                    }
                }
                return None;
            },
            Some(v) => {
                let ghost before = out@;
                out.push(v as u16);
                assert(ints(out@) == ints(before).push(v as int));
                i = i + 1;
            },
        }
    }
    Some(out)
}

/// Groups as mathematical integers.
pub open spec fn ints(g: Seq<u16>) -> Seq<int> {
    g.map_values(|x: u16| x as int)
}

/// Every front of a valid list of groups is valid.
proof fn lemma_hextets_prefix(parts: Seq<Seq<char>>, n: int)
    requires
        0 <= n <= parts.len(),
        hextets(parts) is Some,
    ensures
        hextets(parts.take(n)) is Some,
    decreases parts.len(),
{
    if n == parts.len() {
        assert(parts.take(n) == parts);
    } else {
        lemma_hextets_prefix(parts.drop_last(), n);
        assert(parts.drop_last().take(n) == parts.take(n));
    }
}

/// Reads colon-separated groups; with `tail` the last part may be an IPv4
/// literal.
fn read_groups(s: &[char], tail: bool) -> (r: Option<Vec<u16>>)
    ensures
        r is Some <==> (if tail {
            groups(colon_parts(s@))
        } else {
            hextets(colon_parts(s@))
        }) is Some,
        r is Some ==> ints(r->0@) == (if tail {
            groups(colon_parts(s@))
        } else {
            hextets(colon_parts(s@))
        })->0,
{
    if s.len() == 0 {
        let out: Vec<u16> = Vec::new();
        assert(ints(out@) == Seq::<int>::empty());
        return Some(out);
    }
    let parts = split_chars(s, ':');
    let n: usize = parts.len();
    let ghost all = contents(parts@);
    assert(all == colon_parts(s@));
    assert(all.take(n as int) == all);
    assert(all.take(n - 1) == all.drop_last());
    assert(all.last() == parts@[n - 1]@);
    if tail {
        if let Some(v4) = read_v4(parts[n - 1].as_slice()) {
            return match read_hextets(&parts, n - 1) {
                None => None,
                Some(front) => {
                    let mut out: Vec<u16> = front;
                    let ghost before = out@;
                    out.push((v4 / 0x1_0000) as u16);
                    out.push((v4 % 0x1_0000) as u16);
                    assert(ints(out@) == ints(before).push(v4 as int / 0x1_0000).push(
                        v4 as int % 0x1_0000,
                    ));
                    Some(out)
                },
            };
        }
    }
    read_hextets(&parts, n)
}

/// Finds the first `::`.
fn find_gap(s: &[char]) -> (r: Option<usize>)
    ensures
        r is Some <==> gap_from(s@, 0) is Some,
        r is Some ==> r->0 as int == gap_from(s@, 0)->0 && r->0 + 2 <= s@.len(),
{
    let n: usize = s.len();
    let mut i: usize = 0;
    while i < n && n - i >= 2
        invariant
            n == s@.len(),
            i <= n,
            gap_from(s@, 0) == gap_from(s@, i as int),
        decreases n - i,
    {
        if s[i] == ':' && s[i + 1] == ':' {
            return Some(i);
        }
        i = i + 1;
    }
    None
}

fn read_v6(s: &[char]) -> (r: Option<Vec<u16>>)
    ensures
        r is Some <==> v6_literal(s@) is Some,
        r is Some ==> ints(r->0@) == v6_literal(s@)->0,
{
    match find_gap(s) {
        None => match read_groups(s, true) {
            Some(g) => if g.len() == 8 {
                Some(g)
            } else {
                None
            },
            None => None,
        },
        Some(k) => {
            let (front, rest) = s.split_at(k);
            let (colons, back) = rest.split_at(2);
            assert(front@ == s@.take(k as int));
            assert(back@ == s@.skip(k + 2));
            match (read_groups(front, false), read_groups(back, true)) {
                (Some(head), Some(tail)) => {
                    if head.len() > 7 || tail.len() > 7 - head.len() {
                        return None;
                    }
                    let ghost h = head@;
                    let zeros: usize = 8 - head.len() - tail.len();
                    let mut out: Vec<u16> = head;
                    let mut i: usize = 0;
                    while i < zeros
                        invariant
                            i <= zeros,
                            out@ == h + Seq::new(i as nat, |j: int| 0u16),
                        decreases zeros - i,
                    {
                        out.push(0);
                        i = i + 1;
                        assert(out@ =~= h + Seq::new(i as nat, |j: int| 0u16));
                    }
                    let mut j: usize = 0;
                    while j < tail.len()
                        invariant
                            j <= tail@.len(),
                            out@ == h + Seq::new(zeros as nat, |j: int| 0u16) + tail@.take(j as int),
                        decreases tail@.len() - j,
                    {
                        out.push(tail[j]);
                        j = j + 1;
                        assert(tail@.take(j as int) == tail@.take(j - 1).push(tail@[j - 1]));
                        assert(out@ =~= h + Seq::new(zeros as nat, |j: int| 0u16) + tail@.take(
                            j as int,
                        ));
                    }
                    assert(tail@.take(tail@.len() as int) == tail@);
                    assert(ints(out@) =~= ints(h) + Seq::new(zeros as nat, |i: int| 0int) + ints(
                        tail@,
                    ));
                    Some(out)
                },
                _ => None,
            }
        },
    }
}

/// Groups below 65536 make a number below 65536 to the power of their count.
proof fn lemma_groups_value_bound(g: Seq<u16>)
    requires
        g.len() <= 8,
    ensures
        0 <= groups_value(ints(g)),
        g.len() == 0 ==> groups_value(ints(g)) < 1,
        g.len() == 1 ==> groups_value(ints(g)) < 0x1_0000,
        g.len() == 2 ==> groups_value(ints(g)) < 0x1_0000_0000,
        g.len() == 3 ==> groups_value(ints(g)) < 0x1_0000_0000_0000,
        g.len() == 4 ==> groups_value(ints(g)) < 0x1_0000_0000_0000_0000,
        g.len() == 5 ==> groups_value(ints(g)) < 0x1_0000_0000_0000_0000_0000,
        g.len() == 6 ==> groups_value(ints(g)) < 0x1_0000_0000_0000_0000_0000_0000,
        g.len() == 7 ==> groups_value(ints(g)) < 0x1_0000_0000_0000_0000_0000_0000_0000,
        g.len() == 8 ==> groups_value(ints(g)) < 0x1_0000_0000_0000_0000_0000_0000_0000_0000,
    decreases g.len(),
{
    if g.len() > 0 {
        lemma_groups_value_bound(g.drop_last());
        assert(ints(g).drop_last() == ints(g.drop_last()));
    }
}

/// Parses an address literal.
pub fn parse_ip(s: &str) -> (r: Option<IpAddr>)
    ensures
        r == ip_literal(s@),
{
    let chars = chars_of(s);
    if let Some(v4) = read_v4(chars.as_slice()) {
        return Some(IpAddr::V4(v4));
    }
    match read_v6(chars.as_slice()) {
        None => None,
        Some(g) => {
            let mut value: u128 = 0;
            let mut i: usize = 0;
            while i < g.len()
                invariant
                    i <= g@.len() == 8,
                    value as int == groups_value(ints(g@.take(i as int))),
                decreases g@.len() - i,
            {
                proof {
                    lemma_groups_value_bound(g@.take(i + 1));
                    assert(g@.take(i + 1).drop_last() == g@.take(i as int));
                    assert(ints(g@.take(i + 1)).drop_last() == ints(g@.take(i as int)));
                }
                value = value * 0x1_0000 + g[i] as u128;
                i = i + 1;
            }
            assert(g@.take(8) == g@);
            Some(IpAddr::V6(value))
        },
    }
}

} // verus!

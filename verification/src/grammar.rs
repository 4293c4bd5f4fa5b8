//! What numbers and addresses look like as text: the laws that tie the readers
//! and the writers to the notations themselves.

use crate::ip::{
    colon_parts, digit_value, gap_from, groups, groups_value, hextet, hextets, ip_literal,
    is_number, number_value, octet, split, v4_literal, v6_literal, IpAddr,
};
use crate::ip_text::{
    colon_text, ip_text, is_longest_run, is_v4_mapped, is_zero_run, law_ip_text_reads_back,
    lemma_decimal, lemma_four_octets, lemma_gap_at, lemma_hex, lemma_longest_run_exists,
    lemma_no_gap, lemma_split_last, lemma_split_one, lemma_v4_has_no_colon, segments_of, v4_text,
    v6_text,
};
use crate::text::{
    decimal, decimal_fixed, digit, hex, hex_fixed, lemma_char, signed, upper_digit, upper_hex_fixed,
};
use vstd::arithmetic::power::pow;
use vstd::prelude::*;

verus! {

/// The digits are the usual ones: written in one case, read in both, and
/// nothing else is a digit.
pub proof fn law_digits(d: int, c: char)
    requires
        0 <= d < 16,
    ensures
        digit(d) == "0123456789abcdef"@[d],
        upper_digit(d) == "0123456789ABCDEF"@[d],
        digit_value(c) == Some(d) <==> c == "0123456789abcdef"@[d] || c == "0123456789ABCDEF"@[d],
        digit_value(c) is Some ==> 0 <= digit_value(c)->0 < 16,
{
    reveal_strlit("0123456789abcdef");
    reveal_strlit("0123456789ABCDEF");
    lemma_char(c);
    assert(d == 0 || d == 1 || d == 2 || d == 3 || d == 4 || d == 5 || d == 6 || d == 7 || d == 8
        || d == 9 || d == 10 || d == 11 || d == 12 || d == 13 || d == 14 || d == 15);
}

/// Numerals are positional: appending digits shifts what stands before them,
/// and one digit is worth its value.
pub proof fn law_numerals_are_positional(s: Seq<char>, t: Seq<char>, radix: int, c: char)
    requires
        radix > 0,
    ensures
        number_value(s + t, radix) == number_value(s, radix) * pow(radix, t.len()) + number_value(
            t,
            radix,
        ),
        number_value(seq![c], radix) == digit_value(c)->0,
        number_value(Seq::empty(), radix) == 0,
    decreases t.len(),
{
    reveal(pow);
    reveal_with_fuel(number_value, 2);
    assert(seq![c].drop_last() =~= Seq::<char>::empty());
    if t.len() == 0 {
        assert(s + t =~= s);
    } else {
        let u = t.drop_last();
        law_numerals_are_positional(s, u, radix, c);
        assert((s + t).drop_last() =~= s + u);
        assert((s + t).last() == t.last());
        let a = number_value(s, radix);
        let p = pow(radix, u.len());
        let b = number_value(u, radix);
        let v = digit_value(t.last())->0;
        assert(pow(radix, t.len()) == radix * p);
        assert((a * p + b) * radix + v == a * (radix * p) + (b * radix + v)) by (nonlinear_arith);
    }
}

/// A number in decimal is made of the ten digits, has no leading zero, and
/// denotes the number; no other such text denotes it.
pub proof fn law_decimal_denotes_the_number(n: nat, s: Seq<char>)
    ensures
        number_value(decimal(n), 10) == n,
        decimal(n).len() > 0,
        forall|i: int| 0 <= i < decimal(n).len() ==> '0' <= #[trigger] decimal(n)[i] <= '9',
        decimal(n).len() > 1 ==> decimal(n)[0] != '0',
        is_number(s, 10) && (s.len() == 1 || s[0] != '0') && number_value(s, 10) == n ==> s
            == decimal(n),
{
    lemma_decimal(n);
    if is_number(s, 10) && (s.len() == 1 || s[0] != '0') {
        lemma_decimal_unique(s);
    }
}

proof fn lemma_decimal_unique(s: Seq<char>)
    requires
        is_number(s, 10),
        s.len() == 1 || s[0] != '0',
    ensures
        number_value(s, 10) >= 0,
        s[0] != '0' ==> number_value(s, 10) >= 1,
        s == decimal(number_value(s, 10) as nat),
    decreases s.len(),
{
    let init = s.drop_last();
    let c = s.last();
    assert(digit_value(s[s.len() - 1]) is Some);
    let d = digit_value(c)->0;
    assert(digit(d) == c);
    reveal_with_fuel(number_value, 2);
    if s.len() == 1 {
        assert(init =~= Seq::<char>::empty());
        assert(s =~= seq![c]);
    } else {
        assert(init[0] == s[0]);
        assert forall|i: int| 0 <= i < init.len() implies (#[trigger] digit_value(init[i])) is Some
            && digit_value(init[i])->0 < 10 by {
            assert(digit_value(s[i]) is Some);
        }
        lemma_decimal_unique(init);
        let m = number_value(init, 10);
        assert(number_value(s, 10) == m * 10 + d);
        assert((m * 10 + d) / 10 == m && (m * 10 + d) % 10 == d);
        assert(s =~= init.push(c));
    }
}

/// A number with its sign: a minus sign for those below zero and for no others,
/// then the distance from zero.
pub proof fn law_signed_denotes_the_number(n: int)
    ensures
        n >= 0 ==> signed(n) == decimal(n as nat) && signed(n)[0] != '-',
        n < 0 ==> signed(n)[0] == '-' && signed(n).skip(1) == decimal((-n) as nat),
{
    lemma_decimal(
        if n >= 0 {
            n as nat
        } else {
            (-n) as nat
        },
    );
    if n < 0 {
        assert(signed(n).skip(1) =~= decimal((-n) as nat));
    }
}

/// A number in hexadecimal denotes the number, in digits of lower case and
/// without a leading zero.
pub proof fn law_hex_denotes_the_number(n: nat)
    ensures
        number_value(hex(n), 16) == n,
        hex(n).len() > 0,
        hex(n).len() > 1 ==> hex(n)[0] != '0',
        forall|i: int| 0 <= i < hex(n).len() ==> is_lower_digit(#[trigger] hex(n)[i]),
    decreases n,
{
    lemma_hex(n);
    if n < 16 {
        assert(is_lower_digit(digit(n as int)));
    } else {
        let m = n / 16;
        law_hex_denotes_the_number(m);
        assert(is_lower_digit(digit((n % 16) as int)));
        assert(hex(n)[0] == hex(m)[0]);
        assert forall|i: int| 0 <= i < hex(n).len() implies is_lower_digit(#[trigger] hex(n)[i]) by {
            if i < hex(n).len() - 1 {
                assert(hex(n)[i] == hex(n / 16)[i]);
            }
        }
        if m < 16 {
            assert(m >= 1);
            assert(hex(m) =~= seq![digit(m as int)]);
            assert(digit(m as int) != '0');
        } else {
            assert(hex(m).len() > 1) by {
                lemma_hex(m / 16);
            }
        }
    }
}

/// A hexadecimal digit in lower case.
pub open spec fn is_lower_digit(c: char) -> bool {
    '0' <= c <= '9' || 'a' <= c <= 'f'
}

/// A hexadecimal digit in upper case.
pub open spec fn is_upper_digit(c: char) -> bool {
    '0' <= c <= '9' || 'A' <= c <= 'F'
}

/// The digits of fixed width, hexadecimal in either case and decimal: as many as
/// the width, and they denote the number, as far as it fits.
pub proof fn law_fixed_width_denotes_the_number(n: nat, width: nat)
    ensures
        hex_fixed(n, width).len() == width,
        number_value(hex_fixed(n, width), 16) == n as int % pow(16, width),
        forall|i: int| 0 <= i < width ==> is_lower_digit(#[trigger] hex_fixed(n, width)[i]),
        upper_hex_fixed(n, width).len() == width,
        number_value(upper_hex_fixed(n, width), 16) == n as int % pow(16, width),
        forall|i: int| 0 <= i < width ==> is_upper_digit(#[trigger] upper_hex_fixed(n, width)[i]),
        decimal_fixed(n, width).len() == width,
        number_value(decimal_fixed(n, width), 10) == n as int % pow(10, width),
        forall|i: int| 0 <= i < width ==> '0' <= #[trigger] decimal_fixed(n, width)[i] <= '9',
    decreases width,
{
    reveal(pow);
    if width == 0 {
        assert(n as int % 1 == 0);
    } else {
        let w = (width - 1) as nat;
        law_fixed_width_denotes_the_number(n / 16, w);
        vstd::arithmetic::power::lemma_pow_positive(16, w);
        lemma_fixed_step(n as int, 16, pow(16, w));
        let lower = hex_fixed(n, width);
        let upper = upper_hex_fixed(n, width);
        assert(lower.drop_last() =~= hex_fixed(n / 16, w));
        assert(upper.drop_last() =~= upper_hex_fixed(n / 16, w));
        assert(digit_value(digit((n % 16) as int)) == Some((n % 16) as int));
        assert(digit_value(upper_digit((n % 16) as int)) == Some((n % 16) as int));
        law_fixed_width_denotes_the_number(n / 10, w);
        vstd::arithmetic::power::lemma_pow_positive(10, w);
        lemma_fixed_step(n as int, 10, pow(10, w));
        let dec = decimal_fixed(n, width);
        assert(dec.drop_last() =~= decimal_fixed(n / 10, w));
        assert(digit_value(digit((n % 10) as int)) == Some((n % 10) as int));
    }
}

proof fn lemma_fixed_step(n: int, radix: int, p: int)
    requires
        n >= 0,
        radix > 1,
        p > 0,
    ensures
        (n / radix % p) * radix + n % radix == n % (radix * p),
{
    vstd::arithmetic::div_mod::lemma_mod_breakdown(n, radix, p);
    vstd::arithmetic::mul::lemma_mul_is_commutative(n / radix % p, radix);
}

/// Parts with a separator between them.
pub open spec fn join(parts: Seq<Seq<char>>, sep: char) -> Seq<char>
    decreases parts.len(),
{
    if parts.len() == 0 {
        Seq::empty()
    } else if parts.len() == 1 {
        parts[0]
    } else {
        join(parts.drop_last(), sep) + seq![sep] + parts.last()
    }
}

/// Whether no part holds the separator.
pub open spec fn none_holds(parts: Seq<Seq<char>>, sep: char) -> bool {
    forall|i: int, k: int|
        0 <= i < parts.len() && 0 <= k < parts[i].len() ==> #[trigger] parts[i][k] != sep
}

/// To split a text is to undo a join: the parts hold no separator, and joined
/// they are the text. Joined parts without separators split into themselves.
pub proof fn law_split_undoes_join(s: Seq<char>, parts: Seq<Seq<char>>, sep: char)
    ensures
        join(split(s, sep), sep) == s,
        none_holds(split(s, sep), sep),
        parts.len() > 0 && none_holds(parts, sep) ==> split(join(parts, sep), sep) == parts,
{
    lemma_join_of_split(s, sep);
    if parts.len() > 0 && none_holds(parts, sep) {
        lemma_split_of_join(parts, sep);
    }
}

proof fn lemma_join_of_split(s: Seq<char>, sep: char)
    ensures
        split(s, sep).len() > 0,
        join(split(s, sep), sep) == s,
        none_holds(split(s, sep), sep),
    decreases s.len(),
{
    reveal_with_fuel(join, 2);
    if s.len() == 0 {
        assert(join(split(s, sep), sep) =~= s);
    } else {
        let init = s.drop_last();
        lemma_join_of_split(init, sep);
        let p = split(init, sep);
        let q = split(s, sep);
        assert(init.push(s.last()) =~= s);
        if s.last() == sep {
            assert(q.drop_last() =~= p);
            assert(join(q, sep) =~= s);
            assert forall|i: int, k: int| 0 <= i < q.len() && 0 <= k < q[i].len() implies
                #[trigger] q[i][k] != sep by {
                assert(i < p.len());
                assert(p[i][k] == q[i][k]);
            }
        } else {
            let last = p.last().push(s.last());
            assert(q.drop_last() =~= p.drop_last());
            assert(q.last() == last);
            assert(join(q, sep) =~= s);
            assert forall|i: int, k: int| 0 <= i < q.len() && 0 <= k < q[i].len() implies
                #[trigger] q[i][k] != sep by {
                if i < p.len() - 1 || k < p[i].len() {
                    assert(p[i][k] == q[i][k]);
                }
            }
        }
    }
}

proof fn lemma_split_of_join(parts: Seq<Seq<char>>, sep: char)
    requires
        parts.len() > 0,
        none_holds(parts, sep),
    ensures
        split(join(parts, sep), sep) == parts,
    decreases parts.len(),
{
    let last = parts.last();
    assert forall|k: int| 0 <= k < last.len() implies last[k] != sep by {
        assert(parts[parts.len() - 1][k] != sep);
    }
    if parts.len() == 1 {
        lemma_split_one(parts[0], sep);
        assert(parts =~= seq![parts[0]]);
    } else {
        let init = parts.drop_last();
        assert forall|i: int, k: int| 0 <= i < init.len() && 0 <= k < init[i].len() implies
            #[trigger] init[i][k] != sep by {
            assert(parts[i][k] != sep);
        }
        lemma_split_of_join(init, sep);
        lemma_split_last(join(init, sep), last, sep);
        assert(init.push(last) =~= parts);
    }
}

/// Four numbers in dotted decimal.
pub open spec fn dotted(a: int, b: int, c: int, d: int) -> Seq<char> {
    join(
        seq![decimal(a as nat), decimal(b as nat), decimal(c as nat), decimal(d as nat)],
        '.',
    )
}

/// An IPv4 literal is four numbers from 0 to 255 in decimal, without leading
/// zeros and with points between them, and nothing else is one: what is read as
/// an IPv4 address is its dotted decimal, to the character.
pub proof fn law_v4_literal_is_dotted_decimal(s: Seq<char>, a: int, b: int, c: int, d: int)
    requires
        0 <= a < 256,
        0 <= b < 256,
        0 <= c < 256,
        0 <= d < 256,
    ensures
        ip_literal(dotted(a, b, c, d)) == Some(
            IpAddr::V4((a * 0x100_0000 + b * 0x1_0000 + c * 0x100 + d) as u32),
        ),
        ip_literal(s) == Some(
            IpAddr::V4((a * 0x100_0000 + b * 0x1_0000 + c * 0x100 + d) as u32),
        ) ==> s == dotted(a, b, c, d),
{
    let parts = seq![decimal(a as nat), decimal(b as nat), decimal(c as nat), decimal(d as nat)];
    lemma_decimal(a as nat);
    lemma_decimal(b as nat);
    lemma_decimal(c as nat);
    lemma_decimal(d as nat);
    assert(none_holds(parts, '.'));
    lemma_split_of_join(parts, '.');
    lemma_four_octets(dotted(a, b, c, d), a as nat, b as nat, c as nat, d as nat);
    if ip_literal(s) == Some(
        IpAddr::V4((a * 0x100_0000 + b * 0x1_0000 + c * 0x100 + d) as u32),
    ) {
        lemma_v4_parts(s);
        let p = split(s, '.');
        let x = v4_literal(s)->0;
        assert(x == a * 0x100_0000 + b * 0x1_0000 + c * 0x100 + d);
        assert(octet(p[0])->0 == a && octet(p[1])->0 == b && octet(p[2])->0 == c && octet(p[3])->0
            == d);
        assert(p =~= parts);
    }
}

proof fn lemma_v4_parts(s: Seq<char>)
    requires
        v4_literal(s) is Some,
    ensures
        ({
            let p = split(s, '.');
            &&& p.len() == 4
            &&& s == join(p, '.')
            &&& forall|i: int|
                0 <= i < 4 ==> 0 <= octet(#[trigger] p[i])->0 < 256 && p[i] == decimal(
                    octet(p[i])->0 as nat,
                )
            &&& 0 <= v4_literal(s)->0 < 0x1_0000_0000
        }),
{
    let p = split(s, '.');
    lemma_join_of_split(s, '.');
    assert forall|i: int| 0 <= i < 4 implies 0 <= octet(#[trigger] p[i])->0 < 256 && p[i]
        == decimal(octet(p[i])->0 as nat) by {
        assert(octet(p[i]) is Some);
        lemma_decimal_unique(p[i]);
    }
    assert(0 <= octet(p[0])->0 < 256 && 0 <= octet(p[1])->0 < 256);
    assert(0 <= octet(p[2])->0 < 256 && 0 <= octet(p[3])->0 < 256);
}

/// A group of an IPv6 literal: one to four hexadecimal digits, in either case.
pub open spec fn is_group(p: Seq<char>) -> bool {
    &&& 1 <= p.len() <= 4
    &&& forall|i: int| 0 <= i < p.len() ==> is_lower_digit(#[trigger] p[i]) || is_upper_digit(p[i])
}

/// Whether every part is a group.
pub open spec fn are_groups(parts: Seq<Seq<char>>) -> bool {
    forall|i: int| 0 <= i < parts.len() ==> is_group(#[trigger] parts[i])
}

/// The parts behind the gap: groups, and where there is one an IPv4 literal.
pub open spec fn behind(tail: Seq<Seq<char>>, v4: Option<(int, int, int, int)>) -> Seq<Seq<char>> {
    match v4 {
        Some((a, b, c, d)) => tail.push(dotted(a, b, c, d)),
        None => tail,
    }
}

/// The text of an IPv6 literal: the groups before a `::`, where there is one,
/// and the parts behind it.
pub open spec fn v6_form(
    head: Seq<Seq<char>>,
    gap: bool,
    tail: Seq<Seq<char>>,
    v4: Option<(int, int, int, int)>,
) -> Seq<char> {
    if gap {
        join(head, ':') + seq![':', ':'] + join(behind(tail, v4), ':')
    } else {
        join(behind(tail, v4), ':')
    }
}

/// What makes such a text a literal: eight groups, an IPv4 literal counting for
/// two of them, or with a `::` at most seven.
pub open spec fn is_v6_form(
    head: Seq<Seq<char>>,
    gap: bool,
    tail: Seq<Seq<char>>,
    v4: Option<(int, int, int, int)>,
) -> bool {
    let n = head.len() + tail.len() + if v4 is Some {
        2int
    } else {
        0
    };
    &&& are_groups(head)
    &&& are_groups(tail)
    &&& v4 matches Some((a, b, c, d)) ==> 0 <= a < 256 && 0 <= b < 256 && 0 <= c < 256 && 0 <= d
        < 256
    &&& if gap {
        n <= 7
    } else {
        n == 8 && head.len() == 0
    }
}

/// The numbers that groups denote.
pub open spec fn group_numbers(parts: Seq<Seq<char>>) -> Seq<int> {
    parts.map_values(|p: Seq<char>| number_value(p, 16))
}

/// The numbers behind the gap.
pub open spec fn behind_numbers(tail: Seq<Seq<char>>, v4: Option<(int, int, int, int)>) -> Seq<
    int,
> {
    match v4 {
        Some((a, b, c, d)) => group_numbers(tail).push(a * 0x100 + b).push(c * 0x100 + d),
        None => group_numbers(tail),
    }
}

/// Groups are the digits of a number to the base 65536, the first in front.
pub proof fn law_groups_are_positional(a: Seq<int>, b: Seq<int>, x: int)
    ensures
        groups_value(a + b) == groups_value(a) * pow(0x1_0000, b.len()) + groups_value(b),
        groups_value(seq![x]) == x,
        groups_value(Seq::empty()) == 0,
    decreases b.len(),
{
    reveal(pow);
    reveal_with_fuel(groups_value, 2);
    assert(seq![x].drop_last() =~= Seq::<int>::empty());
    if b.len() == 0 {
        assert(a + b =~= a);
    } else {
        let u = b.drop_last();
        law_groups_are_positional(a, u, x);
        assert((a + b).drop_last() =~= a + u);
        let m = groups_value(a);
        let p = pow(0x1_0000, u.len());
        let v = groups_value(u);
        let l = b.last();
        assert(pow(0x1_0000, b.len()) == 0x1_0000 * p);
        assert((m * p + v) * 0x1_0000 + l == m * (0x1_0000 * p) + (v * 0x1_0000 + l))
            by (nonlinear_arith);
    }
}

/// An IPv6 literal is groups with colons between them, eight of them or fewer
/// with one `::`, the last two of them perhaps as an IPv4 literal; it denotes
/// the groups before the `::` in front, the groups behind it at the end, and
/// zeros between.
pub proof fn law_v6_literal(
    head: Seq<Seq<char>>,
    gap: bool,
    tail: Seq<Seq<char>>,
    v4: Option<(int, int, int, int)>,
)
    requires
        is_v6_form(head, gap, tail, v4),
    ensures
        ({
            let value = groups_value(group_numbers(head)) * pow(0x1_0000, (8 - head.len()) as nat)
                + groups_value(behind_numbers(tail, v4));
            &&& 0 <= value <= u128::MAX
            &&& ip_literal(v6_form(head, gap, tail, v4)) == Some(IpAddr::V6(value as u128))
        }),
{
    let h = group_numbers(head);
    let t = behind_numbers(tail, v4);
    lemma_numbers_bound(head);
    lemma_behind_bound(tail, v4);
    let zeros = Seq::new((8 - h.len() - t.len()) as nat, |i: int| 0int);
    let g = h + zeros + t;
    lemma_v6_form(head, gap, tail, v4);
    lemma_value_with_gap(h, t);
    assert(all_small(g));
    lemma_value_bound(g);
    assert(pow(0x1_0000, 8) == 0x1_0000_0000_0000_0000_0000_0000_0000_0000) by {
        reveal_with_fuel(pow, 9);
    }
    let s = v6_form(head, gap, tail, v4);
    assert(v4_literal(s) is None) by {
        if v4_literal(s) is Some {
            lemma_v4_has_no_colon(s);
            lemma_form_has_colon(head, gap, tail, v4);
        }
    }
}

proof fn lemma_value_with_gap(h: Seq<int>, t: Seq<int>)
    requires
        h.len() + t.len() <= 8,
    ensures
        groups_value(h + Seq::new((8 - h.len() - t.len()) as nat, |i: int| 0int) + t)
            == groups_value(h) * pow(0x1_0000, (8 - h.len()) as nat) + groups_value(t),
{
    let zeros = Seq::new((8 - h.len() - t.len()) as nat, |i: int| 0int);
    lemma_zeros_value(zeros);
    law_groups_are_positional(h, zeros, 0);
    law_groups_are_positional(h + zeros, t, 0);
    vstd::arithmetic::power::lemma_pow_adds(0x1_0000, zeros.len(), t.len());
    let v = groups_value(h);
    let p = pow(0x1_0000, zeros.len());
    let q = pow(0x1_0000, t.len());
    assert(v * p * q == v * (p * q)) by (nonlinear_arith);
}

/// Whether parts can stand in a colon-separated text.
spec fn are_parts(parts: Seq<Seq<char>>) -> bool {
    forall|i: int| 0 <= i < parts.len() ==> is_part(#[trigger] parts[i])
}

proof fn lemma_form_parts(
    head: Seq<Seq<char>>,
    gap: bool,
    tail: Seq<Seq<char>>,
    v4: Option<(int, int, int, int)>,
)
    requires
        is_v6_form(head, gap, tail, v4),
    ensures
        are_parts(head),
        are_parts(behind(tail, v4)),
{
    let back = behind(tail, v4);
    assert forall|i: int| 0 <= i < head.len() implies is_part(#[trigger] head[i]) by {
        lemma_group_chars(head[i]);
    }
    assert forall|i: int| 0 <= i < back.len() implies is_part(#[trigger] back[i]) by {
        if i < tail.len() {
            lemma_group_chars(tail[i]);
        } else {
            let t = v4->0;
            lemma_dotted_chars(t.0, t.1, t.2, t.3);
        }
    }
}

proof fn lemma_form_has_colon(
    head: Seq<Seq<char>>,
    gap: bool,
    tail: Seq<Seq<char>>,
    v4: Option<(int, int, int, int)>,
)
    requires
        is_v6_form(head, gap, tail, v4),
    ensures
        exists|i: int|
            0 <= i < v6_form(head, gap, tail, v4).len() && #[trigger] v6_form(
                head,
                gap,
                tail,
                v4,
            )[i] == ':',
{
    let s = v6_form(head, gap, tail, v4);
    let back = behind(tail, v4);
    if gap {
        assert(s[join(head, ':').len() as int] == ':');
    } else {
        assert(back.len() > 1);
        assert(s == join(back.drop_last(), ':') + seq![':'] + back.last());
        assert(s[join(back.drop_last(), ':').len() as int] == ':');
    }
}

proof fn lemma_v6_form(
    head: Seq<Seq<char>>,
    gap: bool,
    tail: Seq<Seq<char>>,
    v4: Option<(int, int, int, int)>,
)
    requires
        is_v6_form(head, gap, tail, v4),
    ensures
        ({
            let h = group_numbers(head);
            let t = behind_numbers(tail, v4);
            v6_literal(v6_form(head, gap, tail, v4)) == Some(
                h + Seq::new((8 - h.len() - t.len()) as nat, |i: int| 0int) + t,
            )
        }),
{
    let s = v6_form(head, gap, tail, v4);
    let back = behind(tail, v4);
    lemma_form_parts(head, gap, tail, v4);
    lemma_join_parts(head);
    lemma_join_parts(back);
    lemma_hextets_of_groups(head);
    lemma_groups_of_parts(tail, v4);
    let h = group_numbers(head);
    let t = behind_numbers(tail, v4);
    if gap {
        let front = join(head, ':');
        let k = front.len() as int;
        lemma_gap_behind(front, join(back, ':'));
        assert(s.take(k) =~= front);
        assert(s.skip(k + 2) =~= join(back, ':'));
    } else {
        lemma_no_gap(s, 0);
        assert(h + Seq::new((8 - h.len() - t.len()) as nat, |i: int| 0int) + t =~= t);
    }
}

proof fn lemma_gap_behind(front: Seq<char>, back: Seq<char>)
    requires
        front.len() > 0 ==> front.last() != ':',
        forall|i: int|
            0 <= i < front.len() - 1 ==> !(#[trigger] front[i] == ':' && front[i + 1] == ':'),
    ensures
        gap_from(front + seq![':', ':'] + back, 0) == Some(front.len() as int),
{
    let s = front + seq![':', ':'] + back;
    let k = front.len() as int;
    assert(s[k] == ':' && s[k + 1] == ':');
    assert forall|i: int| 0 <= i < k implies !(#[trigger] s[i] == ':' && s[i + 1] == ':') by {
        assert(s[i] == front[i]);
        if i + 1 < k {
            assert(s[i + 1] == front[i + 1]);
        }
    }
    lemma_gap_at(s, 0, k);
}

/// A part of a colon-separated text: not empty and without a colon.
spec fn is_part(p: Seq<char>) -> bool {
    &&& p.len() > 0
    &&& forall|i: int| 0 <= i < p.len() ==> #[trigger] p[i] != ':'
}

proof fn lemma_group_chars(p: Seq<char>)
    requires
        is_group(p),
    ensures
        is_part(p),
        is_number(p, 16),
        hextet(p) == Some(number_value(p, 16)),
        0 <= number_value(p, 16) < 0x1_0000,
        v4_literal(p) is None,
{
    assert forall|i: int| 0 <= i < p.len() implies (#[trigger] digit_value(p[i])) is Some
        && digit_value(p[i])->0 < 16 by {
        assert(is_lower_digit(p[i]) || is_upper_digit(p[i]));
    }
    assert forall|i: int| 0 <= i < p.len() implies #[trigger] p[i] != ':' && p[i] != '.' by {
        assert(is_lower_digit(p[i]) || is_upper_digit(p[i]));
    }
    lemma_split_one(p, '.');
    lemma_number_bound(p);
    assert(pow(16, 1) == 16 && pow(16, 2) == 256 && pow(16, 3) == 4096 && pow(16, 4) == 65536) by {
        reveal_with_fuel(pow, 5);
    }
}

proof fn lemma_number_bound(p: Seq<char>)
    requires
        is_number(p, 16),
    ensures
        0 <= number_value(p, 16) < pow(16, p.len()),
    decreases p.len(),
{
    reveal(pow);
    let init = p.drop_last();
    assert(digit_value(p[p.len() - 1]) is Some);
    if init.len() == 0 {
        assert(number_value(init, 16) == 0);
        assert(pow(16, 0) == 1);
    } else {
        assert forall|i: int| 0 <= i < init.len() implies (#[trigger] digit_value(init[i])) is Some
            && digit_value(init[i])->0 < 16 by {
            assert(digit_value(p[i]) is Some);
        }
        lemma_number_bound(init);
    }
}

proof fn lemma_dotted_chars(a: int, b: int, c: int, d: int)
    requires
        0 <= a < 256,
        0 <= b < 256,
        0 <= c < 256,
        0 <= d < 256,
    ensures
        is_part(dotted(a, b, c, d)),
        v4_literal(dotted(a, b, c, d)) == Some(a * 0x100_0000 + b * 0x1_0000 + c * 0x100 + d),
{
    let parts = seq![decimal(a as nat), decimal(b as nat), decimal(c as nat), decimal(d as nat)];
    lemma_decimal(a as nat);
    lemma_decimal(b as nat);
    lemma_decimal(c as nat);
    lemma_decimal(d as nat);
    assert(none_holds(parts, '.'));
    lemma_split_of_join(parts, '.');
    lemma_four_octets(dotted(a, b, c, d), a as nat, b as nat, c as nat, d as nat);
    lemma_v4_has_no_colon(dotted(a, b, c, d));
    if dotted(a, b, c, d).len() == 0 {
        assert(split(dotted(a, b, c, d), '.').len() == 1);
    }
}

proof fn lemma_join_parts(parts: Seq<Seq<char>>)
    requires
        are_parts(parts),
    ensures
        colon_parts(join(parts, ':')) == parts,
        parts.len() > 0 ==> join(parts, ':').len() > 0 && join(parts, ':')[0] != ':' && join(
            parts,
            ':',
        ).last() != ':',
        forall|i: int|
            0 <= i < join(parts, ':').len() - 1 ==> !(#[trigger] join(parts, ':')[i] == ':' && join(
                parts,
                ':',
            )[i + 1] == ':'),
    decreases parts.len(),
{
    let s = join(parts, ':');
    if parts.len() > 0 {
        assert(is_part(parts[parts.len() - 1]));
        assert(is_part(parts[0]));
        assert(none_holds(parts, ':')) by {
            assert forall|i: int, k: int| 0 <= i < parts.len() && 0 <= k < parts[i].len() implies
                #[trigger] parts[i][k] != ':' by {
                assert(is_part(parts[i]));
            }
        }
        lemma_split_of_join(parts, ':');
        if parts.len() > 1 {
            let init = parts.drop_last();
            assert forall|i: int| 0 <= i < init.len() implies is_part(#[trigger] init[i]) by {
                assert(is_part(parts[i]));
            }
            lemma_join_parts(init);
            let a = join(init, ':');
            let b = parts.last();
            assert(s == a + seq![':'] + b);
            assert forall|i: int| 0 <= i < s.len() - 1 implies !(#[trigger] s[i] == ':' && s[i + 1]
                == ':') by {
                if i < a.len() - 1 {
                    assert(s[i] == a[i] && s[i + 1] == a[i + 1]);
                } else if i == a.len() - 1 {
                    assert(s[i] == a[i]);
                } else if i == a.len() {
                    assert(s[i + 1] == b[0]);
                } else {
                    assert(s[i] == b[i - a.len() - 1]);
                }
            }
        }
    } else {
        assert(colon_parts(s) =~= parts);
    }
}

proof fn lemma_hextets_of_groups(parts: Seq<Seq<char>>)
    requires
        are_groups(parts),
    ensures
        hextets(parts) == Some(group_numbers(parts)),
    decreases parts.len(),
{
    if parts.len() == 0 {
        assert(group_numbers(parts) =~= Seq::<int>::empty());
    } else {
        let init = parts.drop_last();
        assert forall|i: int| 0 <= i < init.len() implies is_group(#[trigger] init[i]) by {
            assert(is_group(parts[i]));
        }
        lemma_hextets_of_groups(init);
        assert(is_group(parts[parts.len() - 1]));
        lemma_group_chars(parts.last());
        assert(group_numbers(parts) =~= group_numbers(init).push(number_value(parts.last(), 16)));
    }
}

proof fn lemma_groups_of_parts(tail: Seq<Seq<char>>, v4: Option<(int, int, int, int)>)
    requires
        are_groups(tail),
        v4 matches Some((a, b, c, d)) ==> 0 <= a < 256 && 0 <= b < 256 && 0 <= c < 256 && 0 <= d
            < 256,
    ensures
        groups(behind(tail, v4)) == Some(behind_numbers(tail, v4)),
{
    lemma_hextets_of_groups(tail);
    if v4 is Some {
        let t = v4->0;
        lemma_dotted_chars(t.0, t.1, t.2, t.3);
        assert(behind(tail, v4).drop_last() =~= tail);
        let n = t.0 * 0x100_0000 + t.1 * 0x1_0000 + t.2 * 0x100 + t.3;
        assert(n / 0x1_0000 == t.0 * 0x100 + t.1);
        assert(n % 0x1_0000 == t.2 * 0x100 + t.3);
    } else if tail.len() > 0 {
        assert(is_group(tail[tail.len() - 1]));
        lemma_group_chars(tail.last());
    }
}

/// Whether all numbers fit in a group.
spec fn all_small(g: Seq<int>) -> bool {
    forall|i: int| 0 <= i < g.len() ==> 0 <= #[trigger] g[i] < 0x1_0000
}

proof fn lemma_numbers_bound(parts: Seq<Seq<char>>)
    requires
        are_groups(parts),
    ensures
        all_small(group_numbers(parts)),
{
    assert forall|i: int| 0 <= i < parts.len() implies 0 <= #[trigger] group_numbers(parts)[i]
        < 0x1_0000 by {
        lemma_group_chars(parts[i]);
    }
}

proof fn lemma_behind_bound(tail: Seq<Seq<char>>, v4: Option<(int, int, int, int)>)
    requires
        are_groups(tail),
        v4 matches Some((a, b, c, d)) ==> 0 <= a < 256 && 0 <= b < 256 && 0 <= c < 256 && 0 <= d
            < 256,
    ensures
        all_small(behind_numbers(tail, v4)),
{
    lemma_numbers_bound(tail);
}

proof fn lemma_value_bound(g: Seq<int>)
    requires
        all_small(g),
    ensures
        0 <= groups_value(g) < pow(0x1_0000, g.len()),
    decreases g.len(),
{
    reveal(pow);
    if g.len() > 0 {
        assert(0 <= g[g.len() - 1] < 0x1_0000);
        lemma_value_bound(g.drop_last());
    }
}

proof fn lemma_zeros_value(g: Seq<int>)
    requires
        forall|i: int| 0 <= i < g.len() ==> g[i] == 0,
    ensures
        groups_value(g) == 0,
    decreases g.len(),
{
    if g.len() > 0 {
        lemma_zeros_value(g.drop_last());
    }
}

/// Nothing else is an IPv6 literal: every text that is read as an IPv6 address
/// has that form.
pub proof fn law_only_the_form_is_a_v6_literal(s: Seq<char>)
    requires
        ip_literal(s) is Some,
        ip_literal(s)->0 is V6,
    ensures
        exists|
            head: Seq<Seq<char>>,
            gap: bool,
            tail: Seq<Seq<char>>,
            v4: Option<(int, int, int, int)>,
        | #[trigger]
            is_v6_form(head, gap, tail, v4) && s == v6_form(head, gap, tail, v4),
{
    let gap = gap_from(s, 0) is Some;
    let k = gap_from(s, 0)->0;
    let front = if gap {
        s.take(k)
    } else {
        Seq::empty()
    };
    let back = if gap {
        s.skip(k + 2)
    } else {
        s
    };
    let head = colon_parts(front);
    lemma_join_colon_parts(front);
    lemma_join_colon_parts(back);
    if gap {
        lemma_gap_found(s, 0);
        assert(s =~= front + seq![':', ':'] + back);
        lemma_groups_of_hextets(head);
    } else {
        assert(head =~= Seq::<Seq<char>>::empty());
    }
    let parts = colon_parts(back);
    if parts.len() > 0 && v4_literal(parts.last()) is Some {
        let tail = parts.drop_last();
        lemma_groups_of_hextets(tail);
        let p = split(parts.last(), '.');
        let v4 = (octet(p[0])->0, octet(p[1])->0, octet(p[2])->0, octet(p[3])->0);
        lemma_v4_parts(parts.last());
        assert(parts.last() == dotted(v4.0, v4.1, v4.2, v4.3)) by {
            assert(p =~= seq![
                decimal(v4.0 as nat),
                decimal(v4.1 as nat),
                decimal(v4.2 as nat),
                decimal(v4.3 as nat),
            ]);
        }
        assert(behind(tail, Some(v4)) =~= parts);
        assert(is_v6_form(head, gap, tail, Some(v4)));
        assert(s == v6_form(head, gap, tail, Some(v4)));
    } else {
        lemma_groups_of_hextets(parts);
        assert(is_v6_form(head, gap, parts, None));
        assert(s == v6_form(head, gap, parts, None));
    }
}

proof fn lemma_join_colon_parts(s: Seq<char>)
    ensures
        join(colon_parts(s), ':') == s,
{
    lemma_join_of_split(s, ':');
    if s.len() == 0 {
        assert(join(colon_parts(s), ':') =~= s);
    }
}

proof fn lemma_gap_found(s: Seq<char>, from: int)
    requires
        0 <= from,
        gap_from(s, from) is Some,
    ensures
        from <= gap_from(s, from)->0,
        gap_from(s, from)->0 + 1 < s.len(),
        s[gap_from(s, from)->0] == ':',
        s[gap_from(s, from)->0 + 1] == ':',
    decreases s.len() - from,
{
    if !(s[from] == ':' && s[from + 1] == ':') {
        lemma_gap_found(s, from + 1);
    }
}

proof fn lemma_groups_of_hextets(parts: Seq<Seq<char>>)
    requires
        hextets(parts) is Some,
    ensures
        are_groups(parts),
        (hextets(parts)->0).len() == parts.len(),
    decreases parts.len(),
{
    if parts.len() > 0 {
        let init = parts.drop_last();
        let last = parts.last();
        lemma_groups_of_hextets(init);
        assert forall|i: int| 0 <= i < last.len() implies is_lower_digit(#[trigger] last[i])
            || is_upper_digit(last[i]) by {
            assert(digit_value(last[i]) is Some);
        }
        assert forall|i: int| 0 <= i < parts.len() implies is_group(#[trigger] parts[i]) by {
            if i < init.len() {
                assert(is_group(init[i]));
            }
        }
    }
}

/// The groups of an address in hexadecimal, without leading zeros.
pub open spec fn hex_groups(g: Seq<int>) -> Seq<Seq<char>> {
    g.map_values(|x: int| hex(x as nat))
}

/// The text of an IPv4 address is its dotted decimal.
pub proof fn law_v4_text(a: int, b: int, c: int, d: int)
    requires
        0 <= a < 256,
        0 <= b < 256,
        0 <= c < 256,
        0 <= d < 256,
    ensures
        ip_text(IpAddr::V4((a * 0x100_0000 + b * 0x1_0000 + c * 0x100 + d) as u32)) == dotted(
            a,
            b,
            c,
            d,
        ),
{
    let ip = IpAddr::V4((a * 0x100_0000 + b * 0x1_0000 + c * 0x100 + d) as u32);
    law_ip_text_reads_back(ip);
    law_v4_literal_is_dotted_decimal(ip_text(ip), a, b, c, d);
}

/// Whether groups from `start` on, as many as `len`, are all zero.
pub open spec fn zeros_at(g: Seq<int>, start: int, len: int) -> bool {
    &&& 0 <= start
    &&& 0 <= len
    &&& start + len <= g.len()
    &&& forall|i: int| start <= i < start + len ==> g[i] == 0
}

/// The text of an IPv6 address: its groups with colons between them, and the
/// first of the longest runs of two or more zero groups as `::`. An address
/// that stands for an IPv4 address is `::ffff:` and that address.
pub proof fn law_v6_text(g: Seq<int>, start: int, len: int)
    requires
        g.len() == 8,
        forall|i: int| 0 <= i < 8 ==> 0 <= #[trigger] g[i] < 0x1_0000,
    ensures
        0 <= groups_value(g) <= u128::MAX,
        ({
            let text = ip_text(IpAddr::V6(groups_value(g) as u128));
            let mapped = g.take(6) == seq![0int, 0, 0, 0, 0, 0xffff];
            &&& mapped ==> text == "::ffff:"@ + dotted(
                g[6] / 256,
                g[6] % 256,
                g[7] / 256,
                g[7] % 256,
            )
            &&& !mapped && (forall|i: int| 0 <= i < 7 ==> !(#[trigger] g[i] == 0 && g[i + 1] == 0))
                ==> text == join(hex_groups(g), ':')
            &&& !mapped && len >= 2 && zeros_at(g, start, len) && (forall|s: int, l: int|
                #[trigger] zeros_at(g, s, l) ==> l < len || l == len && start <= s) ==> text
                == join(hex_groups(g.take(start)), ':') + "::"@ + join(
                hex_groups(g.skip(start + len)),
                ':',
            )
        }),
{
    assert(all_small(g));
    lemma_value_bound(g);
    assert(pow(0x1_0000, 8) == 0x1_0000_0000_0000_0000_0000_0000_0000_0000) by {
        reveal_with_fuel(pow, 9);
    }
    lemma_segments(g);
    let text = ip_text(IpAddr::V6(groups_value(g) as u128));
    assert(text == v6_text(g));
    let mapped = g.take(6) == seq![0int, 0, 0, 0, 0, 0xffff];
    assert(mapped == is_v4_mapped(g)) by {
        if is_v4_mapped(g) {
            assert(g.take(6) =~= seq![0int, 0, 0, 0, 0, 0xffff]);
        }
        if mapped {
            assert(g.take(6)[0] == g[0] && g.take(6)[1] == g[1] && g.take(6)[2] == g[2]
                && g.take(6)[3] == g[3] && g.take(6)[4] == g[4] && g.take(6)[5] == g[5]);
        }
    }
    if mapped {
        law_v4_text(g[6] / 256, g[6] % 256, g[7] / 256, g[7] % 256);
        let n = (g[6] * 0x1_0000 + g[7]) as nat;
        assert(ip_text(IpAddr::V4(n as u32)) == v4_text(n));
    } else {
        lemma_longest_run_exists(g);
        let best = choose|r: (int, int)| is_longest_run(g, r.0, r.1);
        assert(is_longest_run(g, best.0, best.1));
        lemma_colon_join(g);
        if forall|i: int| 0 <= i < 7 ==> !(#[trigger] g[i] == 0 && g[i + 1] == 0) {
            if best.1 > 1 {
                assert(g[best.0] == 0 && g[best.0 + 1] == 0);
            }
        }
        if len >= 2 && zeros_at(g, start, len) && (forall|s: int, l: int|
            #[trigger] zeros_at(g, s, l) ==> l < len || l == len && start <= s) {
            assert(zeros_at(g, best.0, best.1));
            assert(is_zero_run(g, start, len));
            assert(best.0 == start && best.1 == len);
            lemma_colon_join(g.take(start));
            lemma_colon_join(g.skip(start + len));
        }
    }
}

proof fn lemma_colon_join(g: Seq<int>)
    ensures
        colon_text(g) == join(hex_groups(g), ':'),
    decreases g.len(),
{
    if g.len() > 1 {
        lemma_colon_join(g.drop_last());
        assert(hex_groups(g).drop_last() =~= hex_groups(g.drop_last()));
    }
}

proof fn lemma_segments(g: Seq<int>)
    requires
        all_small(g),
    ensures
        groups_value(g) >= 0,
        segments_of(groups_value(g) as nat, g.len()) == g,
    decreases g.len(),
{
    if g.len() > 0 {
        let init = g.drop_last();
        lemma_segments(init);
        let v = groups_value(init);
        let l = g.last();
        assert(0 <= g[g.len() - 1] < 0x1_0000);
        assert((v * 0x1_0000 + l) / 0x1_0000 == v && (v * 0x1_0000 + l) % 0x1_0000 == l);
        assert(init.push(l) =~= g);
    } else {
        assert(segments_of(groups_value(g) as nat, g.len()) =~= g);
    }
}

} // verus!

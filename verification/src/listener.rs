//! A listener for tests of connections between sandboxes: its port, and the
//! one response it gives.

use crate::ip::{digit_value, is_number, number_value};
use crate::text::{chars_of, decimal, push_decimal};
use crate::ip_text::lemma_decimal;
use vstd::prelude::*;

verus! {

/// The port without an argument.
pub const DEFAULT_PORT: u16 = 19443;

/// The number that an argument denotes: digits, with a plus sign before them
/// or not, below 2^16.
pub open spec fn port_number(s: Seq<char>) -> Option<u16> {
    let digits = if s.len() > 0 && s[0] == '+' {
        s.skip(1)
    } else {
        s
    };
    if is_number(digits, 10) && number_value(digits, 10) < 0x1_0000 {
        Some(number_value(digits, 10) as u16)
    } else {
        None
    }
}

proof fn lemma_prefix_smaller(s: Seq<char>, i: int)
    requires
        is_number(s, 10),
        0 <= i <= s.len(),
    ensures
        0 <= number_value(s.take(i), 10) <= number_value(s, 10),
    decreases s.len() - i,
{
    if i < s.len() {
        lemma_prefix_smaller(s, i + 1);
        assert(s.take(i + 1).drop_last() =~= s.take(i));
        assert(digit_value(s[i]) is Some);
        lemma_nonnegative(s.take(i));
    } else {
        assert(s.take(i) =~= s);
        lemma_nonnegative(s);
    }
}

proof fn lemma_nonnegative(s: Seq<char>)
    requires
        s.len() > 0 ==> is_number(s, 10),
    ensures
        number_value(s, 10) >= 0,
    decreases s.len(),
{
    if s.len() > 0 {
        let init = s.drop_last();
        assert(digit_value(s[s.len() - 1]) is Some);
        if init.len() > 0 {
            assert forall|i: int| 0 <= i < init.len() implies (#[trigger] digit_value(
                init[i],
            )) is Some && digit_value(init[i])->0 < 10 by {
                assert(digit_value(s[i]) is Some);
            }
        }
        lemma_nonnegative(init);
    }
}

/// The number that an argument denotes.
pub fn parse_port(arg: &str) -> (p: Option<u16>)
    ensures
        p == port_number(arg@),
{
    let c: Vec<char> = chars_of(arg);
    let start: usize = if c.len() > 0 && c[0] == '+' {
        1
    } else {
        0
    };
    let ghost digits = arg@.skip(start as int);
    assert(arg@.skip(0) =~= arg@);
    if c.len() == start {
        return None;
    }
    let mut value: u32 = 0;
    let mut i: usize = start;
    assert(digits.take(0) =~= Seq::<char>::empty());
    while i < c.len()
        invariant
            start <= i <= c.len(),
            start < c.len(),
            c@ == arg@,
            digits == arg@.skip(start as int),
            value < 0x1_0000,
            forall|k: int|
                0 <= k < i - start ==> (#[trigger] digit_value(digits[k])) is Some
                    && digit_value(digits[k])->0 < 10,
            value == number_value(digits.take(i - start), 10),
            port_number(arg@) == (if is_number(digits, 10) && number_value(digits, 10) < 0x1_0000 {
                Some(number_value(digits, 10) as u16)
            } else {
                None
            }),
        decreases c.len() - i,
    {
        let ch: char = c[i];
        assert(digits[i - start] == ch);
        if ch < '0' || ch > '9' {
            assert(digit_value(digits[i - start]) is None || digit_value(
                digits[i - start],
            )->0 >= 10);
            return None;
        }
        let d: u32 = ch as u32 - '0' as u32;
        assert(digits.take(i - start + 1).drop_last() =~= digits.take(i - start));
        assert(number_value(digits.take(i - start + 1), 10) == value * 10 + d);
        value = value * 10 + d;
        if value >= 0x1_0000 {
            proof {
                if is_number(digits, 10) {
                    lemma_prefix_smaller(digits, i - start + 1);
                }
            }
            return None;
        }
        i = i + 1;
    }
    assert(digits.take(digits.len() as int) =~= digits);
    Some(value as u16)
}

/// The port to listen on, given the first argument, if there is one. What is
/// no port counts as nothing.
pub fn port(arg: Option<&str>) -> (p: u16)
    ensures
        p == (match arg {
            Some(s) => match port_number(s@) {
                Some(n) => n,
                None => DEFAULT_PORT,
            },
            None => DEFAULT_PORT,
        }),
        arg is None ==> p == 19443,
        arg is Some && port_number(arg->0@) is None ==> p == 19443,
{
    match arg {
        Some(s) => match parse_port(s) {
            Some(n) => n,
            None => DEFAULT_PORT,
        },
        None => DEFAULT_PORT,
    }
}

/// The body of the response.
pub const BODY: &'static str = "OK\n";

/// The response: the length of the body, and the body.
pub open spec fn response_text(body: Seq<char>) -> Seq<char> {
    "HTTP/1.1 200 OK\r\nContent-Length: "@ + decimal(body.len())
        + "\r\nConnection: close\r\n\r\n"@ + body
}

/// The response to a connection.
pub fn response() -> (r: String)
    ensures
        r@ == response_text(BODY@),
{
    let mut r: String = "HTTP/1.1 200 OK\r\nContent-Length: ".to_owned();
    push_decimal(&mut r, chars_of(BODY).len() as u64);
    r.append("\r\nConnection: close\r\n\r\n");
    r.append(BODY);
    assert(r@ =~= response_text(BODY@));
    r
}

/// A port is its number in decimal, if that is below 65536. A plus sign before
/// it and zeros before it change nothing.
pub proof fn law_port_is_its_decimal(n: nat, s: Seq<char>)
    ensures
        n < 65536 ==> port_number(decimal(n)) == Some(n as u16),
        n >= 65536 ==> port_number(decimal(n)) is None,
        s.len() > 0 && s[0] != '+' ==> port_number(seq!['+'] + s) == port_number(s),
        s.len() > 0 && s[0] != '+' ==> port_number(seq!['0'] + s) == port_number(s),
{
    lemma_decimal(n);
    let d = decimal(n);
    assert('0' <= d[0] <= '9');
    if s.len() > 0 && s[0] != '+' {
        assert((seq!['+'] + s).skip(1) =~= s);
        let z = seq!['0'] + s;
        lemma_leading_zero(s);
        if is_number(s, 10) {
            assert forall|i: int| 0 <= i < z.len() implies (#[trigger] digit_value(z[i])) is Some
                && digit_value(z[i])->0 < 10 by {
                if i > 0 {
                    assert(digit_value(s[i - 1]) is Some);
                }
            }
        }
        if is_number(z, 10) {
            assert forall|i: int| 0 <= i < s.len() implies (#[trigger] digit_value(s[i])) is Some
                && digit_value(s[i])->0 < 10 by {
                assert(digit_value(z[i + 1]) is Some);
            }
        }
    }
}

proof fn lemma_leading_zero(s: Seq<char>)
    ensures
        number_value(seq!['0'] + s, 10) == number_value(s, 10),
    decreases s.len(),
{
    let z = seq!['0'] + s;
    reveal_with_fuel(number_value, 2);
    if s.len() == 0 {
        assert(z.drop_last() =~= Seq::<char>::empty());
    } else {
        lemma_leading_zero(s.drop_last());
        assert(z.drop_last() =~= seq!['0'] + s.drop_last());
    }
}

/// What holds anything but the ten digits behind its sign is no port, and a
/// sign alone or nothing is none.
pub proof fn law_port_is_digits(s: Seq<char>, i: int)
    requires
        0 <= i < s.len(),
        !('0' <= s[i] <= '9'),
        i > 0 || s[0] != '+' || s.len() == 1,
    ensures
        port_number(s) is None,
        port_number(Seq::empty()) is None,
{
    let digits = if s[0] == '+' {
        s.skip(1)
    } else {
        s
    };
    if s[0] == '+' {
        if i > 0 {
            assert(digits[i - 1] == s[i]);
            assert(digit_value(digits[i - 1]) is None || digit_value(digits[i - 1])->0 >= 10);
        }
    } else {
        assert(digit_value(digits[i]) is None || digit_value(digits[i])->0 >= 10);
    }
}

/// A response tells the length of its body in decimal, and holds the body at its
/// end.
pub proof fn law_response(body: Seq<char>)
    ensures
        ({
            let r = response_text(body);
            let front = r.take(r.len() - body.len());
            &&& r.skip(r.len() - body.len()) == body
            &&& front == "HTTP/1.1 200 OK\r\nContent-Length: "@ + decimal(body.len())
                + "\r\nConnection: close\r\n\r\n"@
        }),
{
    let r = response_text(body);
    let front = "HTTP/1.1 200 OK\r\nContent-Length: "@ + decimal(body.len())
        + "\r\nConnection: close\r\n\r\n"@;
    assert(r =~= front + body);
    assert(r.take(r.len() - body.len()) =~= front);
    assert(r.skip(r.len() - body.len()) =~= body);
}

} // verus!

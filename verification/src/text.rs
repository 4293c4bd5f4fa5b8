//! Building and inspecting text: numbers in decimal and hexadecimal, and
//! strings as sequences of characters.

use vstd::prelude::*;

verus! {

/// `String::push`: the character is appended at the end of the string.
pub assume_specification[ String::push ](s: &mut String, ch: char)
    ensures
        final(s)@ == old(s)@.push(ch),
;

/// The character that stands for a digit value below sixteen, in lower case.
pub open spec fn digit(d: int) -> char {
    if d < 10 {
        ('0' as int + d) as char
    } else {
        ('a' as int + d - 10) as char
    }
}

/// The character that stands for a digit value below sixteen, in upper case.
pub open spec fn upper_digit(d: int) -> char {
    if d < 10 {
        ('0' as int + d) as char
    } else {
        ('A' as int + d - 10) as char
    }
}

/// A number in decimal, without leading zeros.
pub open spec fn decimal(n: nat) -> Seq<char>
    decreases n,
{
    if n < 10 {
        seq![digit(n as int)]
    } else {
        decimal(n / 10).push(digit((n % 10) as int))
    }
}

/// A number in lower-case hexadecimal, without leading zeros.
pub open spec fn hex(n: nat) -> Seq<char>
    decreases n,
{
    if n < 16 {
        seq![digit(n as int)]
    } else {
        hex(n / 16).push(digit((n % 16) as int))
    }
}

/// The `width` least significant hexadecimal digits of a number, lower case.
pub open spec fn hex_fixed(n: nat, width: nat) -> Seq<char>
    decreases width,
{
    if width == 0 {
        Seq::empty()
    } else {
        hex_fixed(n / 16, (width - 1) as nat).push(digit((n % 16) as int))
    }
}

/// The `width` least significant hexadecimal digits of a number, upper case.
pub open spec fn upper_hex_fixed(n: nat, width: nat) -> Seq<char>
    decreases width,
{
    if width == 0 {
        Seq::empty()
    } else {
        upper_hex_fixed(n / 16, (width - 1) as nat).push(upper_digit((n % 16) as int))
    }
}

/// The `width` least significant decimal digits of a number.
pub open spec fn decimal_fixed(n: nat, width: nat) -> Seq<char>
    decreases width,
{
    if width == 0 {
        Seq::empty()
    } else {
        decimal_fixed(n / 10, (width - 1) as nat).push(digit((n % 10) as int))
    }
}

/// The character of a digit value.
pub fn digit_char(d: u8) -> (c: char)
    requires
        d < 16,
    ensures
        c == digit(d as int),
{
    if d < 10 {
        (48u8 + d) as char
    } else {
        (87u8 + d) as char
    }
}

fn upper_digit_char(d: u8) -> (c: char)
    requires
        d < 16,
    ensures
        c == upper_digit(d as int),
{
    if d < 10 {
        (48u8 + d) as char
    } else {
        (55u8 + d) as char
    }
}

/// Appends `n` in decimal.
pub fn push_decimal(s: &mut String, n: u64)
    ensures
        final(s)@ == old(s)@ + decimal(n as nat),
    decreases n,
{
    if n >= 10 {
        push_decimal(s, n / 10);
    }
    s.push(digit_char((n % 10) as u8));
    assert(s@ == old(s)@ + decimal(n as nat));
}

/// Appends `n` in lower-case hexadecimal without leading zeros.
pub fn push_hex(s: &mut String, n: u32)
    ensures
        final(s)@ == old(s)@ + hex(n as nat),
    decreases n,
{
    if n >= 16 {
        push_hex(s, n / 16);
    }
    s.push(digit_char((n % 16) as u8));
    assert(s@ == old(s)@ + hex(n as nat));
}

/// Appends the `width` least significant hexadecimal digits of `n`.
pub fn push_hex_fixed(s: &mut String, n: u32, width: u8)
    ensures
        final(s)@ == old(s)@ + hex_fixed(n as nat, width as nat),
    decreases width,
{
    if width > 0 {
        push_hex_fixed(s, n / 16, width - 1);
        s.push(digit_char((n % 16) as u8));
    }
    assert(s@ == old(s)@ + hex_fixed(n as nat, width as nat));
}

/// Appends the `width` least significant hexadecimal digits of `n`, upper case.
pub fn push_upper_hex_fixed(s: &mut String, n: u32, width: u8)
    ensures
        final(s)@ == old(s)@ + upper_hex_fixed(n as nat, width as nat),
    decreases width,
{
    if width > 0 {
        push_upper_hex_fixed(s, n / 16, width - 1);
        s.push(upper_digit_char((n % 16) as u8));
    }
    assert(s@ == old(s)@ + upper_hex_fixed(n as nat, width as nat));
}

/// Appends the `width` least significant decimal digits of `n`.
pub fn push_decimal_fixed(s: &mut String, n: u32, width: u8)
    ensures
        final(s)@ == old(s)@ + decimal_fixed(n as nat, width as nat),
    decreases width,
{
    if width > 0 {
        push_decimal_fixed(s, n / 10, width - 1);
        s.push(digit_char((n % 10) as u8));
    }
    assert(s@ == old(s)@ + decimal_fixed(n as nat, width as nat));
}

/// A character is what its scalar value says.
pub proof fn lemma_char(c: char)
    ensures
        (c as u32) < 0xd800 || 0xe000 <= (c as u32) <= 0x10_ffff,
        (c as u32) as char == c,
        c as nat == c as u32,
        c as u32 == 0 ==> c == '\0',
{
}

/// The characters of a string.
pub fn chars_of(s: &str) -> (v: Vec<char>)
    ensures
        v@ == s@,
{
    let mut v: Vec<char> = Vec::new();
    for c in it: s.chars()
        invariant
            v@ == s@.take(it.index() as int),
            it.seq() == s@,
    {
        v.push(c);
    }
    assert(s@.take(s@.len() as int) == s@);
    v
}

/// The string made of the given characters.
pub fn string_of(chars: &[char]) -> (s: String)
    ensures
        s@ == chars@,
{
    let mut s: String = String::new();
    let mut i: usize = 0;
    while i < chars.len()
        invariant
            i <= chars@.len(),
            s@ == chars@.take(i as int),
        decreases chars@.len() - i,
    {
        s.push(chars[i]);
        i = i + 1;
        assert(chars@.take(i as int) == chars@.take(i - 1).push(chars@[i - 1]));
    }
    assert(chars@.take(chars@.len() as int) == chars@);
    s
}

/// The texts of a list of strings.
pub open spec fn texts(v: Seq<String>) -> Seq<Seq<char>> {
    v.map_values(|s: String| s@)
}

/// A copy of some bytes.
pub fn copy_bytes(b: &[u8]) -> (v: Vec<u8>)
    ensures
        v@ == b@,
{
    let mut v: Vec<u8> = Vec::new();
    let mut i: usize = 0;
    while i < b.len()
        invariant
            i <= b.len(),
            v@ == b@.take(i as int),
        decreases b.len() - i,
    {
        v.push(b[i]);
        i = i + 1;
        assert(b@.take(i as int) =~= b@.take(i - 1).push(b@[i - 1]));
    }
    assert(b@.take(b@.len() as int) =~= b@);
    v
}

/// A number with its sign in decimal.
pub open spec fn signed(n: int) -> Seq<char> {
    if n < 0 {
        seq!['-'] + decimal((-n) as nat)
    } else {
        decimal(n as nat)
    }
}

/// Appends a number with its sign in decimal.
pub fn push_signed(s: &mut String, n: i32)
    ensures
        final(s)@ == old(s)@ + signed(n as int),
{
    if n < 0 {
        s.push('-');
        push_decimal(s, (-(n as i64)) as u64);
        assert(s@ =~= old(s)@ + signed(n as int));
    } else {
        push_decimal(s, n as u64);
    }
}

/// Whether a string holds no character.
pub fn is_empty(s: &str) -> (r: bool)
    ensures
        r == (s@.len() == 0),
{
    chars_of(s).len() == 0
}

/// Whether two strings hold the same characters.
pub fn same_text(a: &str, b: &str) -> (r: bool)
    ensures
        r == (a@ == b@),
{
    let x: String = a.to_owned();
    let y: String = b.to_owned();
    x == y
}

/// Whether `s` begins with `prefix`.
pub fn begins_with(s: &str, prefix: &str) -> (r: bool)
    ensures
        r == prefix@.is_prefix_of(s@),
{
    let a = chars_of(s);
    let p = chars_of(prefix);
    if p.len() > a.len() {
        return false;
    }
    let mut i: usize = 0;
    while i < p.len()
        invariant
            i <= p@.len() <= a@.len(),
            p@ == prefix@,
            a@ == s@,
            forall|j: int| 0 <= j < i ==> p@[j] == a@[j],
        decreases p@.len() - i,
    {
        if p[i] != a[i] {
            assert(s@.subrange(0, prefix@.len() as int)[i as int] == a@[i as int]);
            return false;
        }
        i = i + 1;
    }
    assert(prefix@ =~= s@.subrange(0, prefix@.len() as int));
    true
}

/// What the standard `Debug` rendering of a string gives.
pub uninterp spec fn debug_of(s: Seq<char>) -> Seq<char>;

/// Printable ASCII that needs no escape inside quotes.
pub open spec fn is_plain(s: Seq<char>) -> bool {
    forall|i: int| 0 <= i < s.len() ==> ' ' <= #[trigger] s[i] <= '~' && s[i] != '"' && s[i] != '\\'
}

/// `<str as Debug>::fmt`, by way of `format!`: the result depends on the string
/// alone, and plain ASCII is put between two quotation marks as it stands. What
/// becomes of other characters is left to the standard library.
#[verifier::external_body]
fn debug_text(s: &str) -> (r: String)
    ensures
        r@ == debug_of(s@),
        is_plain(s@) ==> r@ == seq!['"'] + s@ + seq!['"'],
{
    format!("{:?}", s)
}

/// A text in quotation marks, with what is not printable escaped.
pub open spec fn quoted(s: Seq<char>) -> Seq<char> {
    if is_plain(s) {
        seq!['"'] + s + seq!['"']
    } else {
        debug_of(s)
    }
}

/// Appends a text in quotation marks.
pub fn push_quoted(m: &mut String, s: &str)
    ensures
        final(m)@ == old(m)@ + quoted(s@),
{
    m.append(debug_text(s).as_str());
}

/// The texts of strings are those of each, in their order.
pub proof fn law_texts(v: Seq<String>, i: int)
    requires
        0 <= i < v.len(),
    ensures
        texts(v).len() == v.len(),
        texts(v)[i] == v[i]@,
{
}

/// Plain ASCII is put between quotation marks as it stands.
pub proof fn law_plain_text_is_quoted(s: Seq<char>)
    requires
        forall|i: int|
            0 <= i < s.len() ==> 32 <= #[trigger] s[i] as int <= 126 && s[i] != '"' && s[i] != '\\',
    ensures
        quoted(s).len() == s.len() + 2,
        quoted(s)[0] == '"',
        quoted(s).last() == '"',
        quoted(s).subrange(1, s.len() as int + 1) == s,
{
    assert forall|i: int| 0 <= i < s.len() implies ' ' <= #[trigger] s[i] <= '~' by {
        lemma_char(s[i]);
    }
    assert(quoted(s).subrange(1, s.len() as int + 1) =~= s);
}

} // verus!

//! The SID that Windows gives to a service, derived from the name of the
//! service alone.

use crate::frame::{le_bytes, le_value};
use crate::wide::{encode_utf16, le_units, units_to_bytes, utf16};
use sha1::Digest;
use vstd::prelude::*;

verus! {

/// What the SHA-1 hash function gives for a message.
pub uninterp spec fn sha1_of(message: Seq<u8>) -> Seq<u8>;

/// The messages that SHA-1 is defined for are shorter than this many bytes.
pub const SHA1_LIMIT: u64 = 0x2000_0000_0000_0000;

/// `sha1::Sha1::digest`: the digest depends on the message alone and has 20
/// bytes. The bit length of the message has to fit into 64 bits.
#[verifier::external_body]
fn sha1_digest(message: &[u8]) -> (digest: Vec<u8>)
    requires
        message@.len() < SHA1_LIMIT,
    ensures
        digest@ == sha1_of(message@),
        digest@.len() == 20,
{
    sha1::Sha1::digest(message).to_vec()
}

/// What `str::to_uppercase` gives for a text.
pub uninterp spec fn unicode_upper(s: Seq<char>) -> Seq<char>;

/// A text of ASCII characters alone.
pub open spec fn is_ascii_text(s: Seq<char>) -> bool {
    forall|i: int| 0 <= i < s.len() ==> #[trigger] s[i] <= '\u{7f}'
}

/// A letter of ASCII in upper case; anything else as it is.
pub open spec fn ascii_upper(c: char) -> char {
    if 'a' <= c <= 'z' {
        (c as u32 - 32) as char
    } else {
        c
    }
}

/// A text with the letters of ASCII in upper case.
pub open spec fn ascii_uppercase(s: Seq<char>) -> Seq<char> {
    s.map_values(|c: char| ascii_upper(c))
}

/// `str::to_uppercase`: the result depends on the text alone, and of a text in
/// ASCII the letters are put in upper case and the rest is kept. What becomes
/// of other characters is left to the Unicode tables.
#[verifier::external_body]
fn to_uppercase(s: &str) -> (r: String)
    ensures
        r@ == unicode_upper(s@),
        is_ascii_text(s@) ==> r@ == ascii_uppercase(s@),
{
    s.to_uppercase()
}

/// A text in upper case.
pub open spec fn uppercase(s: Seq<char>) -> Seq<char> {
    if is_ascii_text(s) {
        ascii_uppercase(s)
    } else {
        unicode_upper(s)
    }
}

/// The message whose digest a service SID is made of: the name in upper case,
/// in UTF-16.
pub open spec fn sid_message(upper: Seq<char>) -> Seq<u8> {
    le_units(utf16(upper))
}

/// The SID of the service with this name in upper case: revision 1, six
/// sub-authorities, the authority 5, then 80 and the digest of the name.
pub open spec fn service_sid(upper: Seq<char>) -> Seq<u8> {
    seq![1u8, 6, 0, 0, 0, 0, 0, 5] + le_bytes(80) + sha1_of(sid_message(upper))
}

/// The SID of a service in binary form.
#[derive(Debug)]
pub struct ServiceSid {
    bytes: Vec<u8>,
}

impl View for ServiceSid {
    type V = Seq<u8>;

    closed spec fn view(&self) -> Seq<u8> {
        self.bytes@
    }
}

impl ServiceSid {
    /// The SID of the service with this name. SHA-1 counts the bits of a message
    /// in 64 bits, so that a name whose message is longer has no SID.
    pub fn derive(service_name: &str) -> (sid: ServiceSid)
        requires
            sid_message(uppercase(service_name@)).len() < SHA1_LIMIT,
        ensures
            sid@ == service_sid(uppercase(service_name@)),
            sid@.len() == 32,
    {
        let upper: String = to_uppercase(service_name);
        Self::derive_upper(upper.as_str())
    }

    /// As `derive`; `None` for a name that is too long to hash.
    pub fn try_derive(service_name: &str) -> (r: Option<ServiceSid>)
        ensures
            r is Some <==> sid_message(uppercase(service_name@)).len() < SHA1_LIMIT,
            r is Some ==> r->0@ == service_sid(uppercase(service_name@)),
    {
        let upper: String = to_uppercase(service_name);
        let message: Vec<u8> = units_to_bytes(encode_utf16(upper.as_str()).as_slice());
        if message.len() as u64 >= SHA1_LIMIT {
            return None;
        }
        Some(Self::derive(service_name))
    }

    /// The SID of the service with this name in upper case.
    pub fn derive_upper(upper: &str) -> (sid: ServiceSid)
        requires
            sid_message(upper@).len() < SHA1_LIMIT,
        ensures
            sid@ == service_sid(upper@),
            sid@.len() == 32,
    {
        let message: Vec<u8> = units_to_bytes(encode_utf16(upper).as_slice());
        let mut hash: Vec<u8> = sha1_digest(message.as_slice());
        // Revision, number of sub-authorities, authority (most significant
        // byte first), and the first sub-authority.
        let mut bytes: Vec<u8> = vec![1, 6, 0, 0, 0, 0, 0, 5, 80, 0, 0, 0];
        bytes.append(&mut hash);
        assert(bytes@ =~= service_sid(upper@));
        ServiceSid { bytes }
    }

    /// The bytes of the SID.
    pub fn bytes(&self) -> (b: &[u8])
        ensures
            b@ == self@,
    {
        self.bytes.as_slice()
    }
}

/// A sub-authority of a SID in binary form.
pub open spec fn sub_authority(sid: Seq<u8>, i: int) -> nat {
    le_value(sid.skip(8 + 4 * i))
}

/// The layout of a service SID: `S-1-5-80-` and five numbers of 32 bits, each
/// read from four bytes of the digest, least significant first.
pub proof fn law_service_sid_layout(upper: Seq<char>, i: int)
    requires
        sha1_of(sid_message(upper)).len() == 20,
        0 <= i < 5,
    ensures
        service_sid(upper).len() == 8 + 4 * 6,
        service_sid(upper)[0] == 1,
        service_sid(upper)[1] == 6,
        service_sid(upper).subrange(2, 8) == seq![0u8, 0, 0, 0, 0, 5],
        sub_authority(service_sid(upper), 0) == 80,
        sub_authority(service_sid(upper), i + 1) == le_value(
            sha1_of(sid_message(upper)).skip(4 * i),
        ),
{
    let sid = service_sid(upper);
    let digest = sha1_of(sid_message(upper));
    assert(sid.subrange(2, 8) =~= seq![0u8, 0, 0, 0, 0, 5]);
    assert(sid.skip(12 + 4 * i) =~= digest.skip(4 * i));
}

/// The bytes of the SID of any service: twelve that are the same for all, and
/// the digest of the name in upper case. So services whose names are the same in
/// upper case have the same SID.
pub proof fn law_service_sid_bytes(name: Seq<char>, other: Seq<char>)
    ensures
        service_sid(uppercase(name)) == seq![1u8, 6, 0, 0, 0, 0, 0, 5, 80, 0, 0, 0] + sha1_of(
            le_units(utf16(uppercase(name))),
        ),
        uppercase(name) == uppercase(other) ==> service_sid(uppercase(name)) == service_sid(
            uppercase(other),
        ),
{
    assert(service_sid(uppercase(name)) =~= seq![1u8, 6, 0, 0, 0, 0, 0, 5, 80, 0, 0, 0] + sha1_of(
        le_units(utf16(uppercase(name))),
    ));
}

/// Whether two texts differ at most in the case of letters of ASCII.
pub open spec fn same_but_case(a: Seq<char>, b: Seq<char>) -> bool {
    a.len() == b.len() && forall|i: int|
        0 <= i < a.len() ==> ascii_upper(#[trigger] a[i]) == ascii_upper(b[i])
}

/// The case of the letters in a name of ASCII characters does not matter.
pub proof fn law_service_sid_ignores_case(a: Seq<char>, b: Seq<char>)
    requires
        is_ascii_text(a),
        is_ascii_text(b),
        same_but_case(a, b),
    ensures
        service_sid(uppercase(a)) == service_sid(uppercase(b)),
{
    assert(ascii_uppercase(a) =~= ascii_uppercase(b));
}

/// The name of the service whose SID gets rights on the engine.
pub const SERVICE_NAME_FOR_SID: &'static str = "mxc-service";

/// The SID of the service `mxc-service`.
pub fn own_sid() -> (sid: ServiceSid)
    ensures
        sid@ == service_sid("MXC-SERVICE"@),
        sid@.len() == 32,
{
    let upper: String = to_uppercase(SERVICE_NAME_FOR_SID);
    proof {
        reveal_strlit("mxc-service");
        reveal_strlit("MXC-SERVICE");
        assert(upper@ =~= "MXC-SERVICE"@);
        lemma_message_length(upper@);
    }
    ServiceSid::derive_upper(upper.as_str())
}

/// The message of a name has at most four bytes for each character.
proof fn lemma_message_length(upper: Seq<char>)
    ensures
        sid_message(upper).len() <= 4 * upper.len(),
{
    lemma_utf16_length(upper);
    lemma_units_length(utf16(upper));
}

proof fn lemma_utf16_length(s: Seq<char>)
    ensures
        utf16(s).len() <= 2 * s.len(),
    decreases s.len(),
{
    if s.len() > 0 {
        lemma_utf16_length(s.skip(1));
    }
}

proof fn lemma_units_length(s: Seq<u16>)
    ensures
        le_units(s).len() == 2 * s.len(),
    decreases s.len(),
{
    if s.len() > 0 {
        lemma_units_length(s.drop_last());
    }
}

/// The upper case of ASCII: each of the 26 letters becomes its capital, and
/// every other character stays as it is.
pub proof fn law_ascii_upper(c: char, i: int)
    requires
        0 <= i < 26,
    ensures
        c == "abcdefghijklmnopqrstuvwxyz"@[i] ==> ascii_upper(c)
            == "ABCDEFGHIJKLMNOPQRSTUVWXYZ"@[i],
        !(97 <= c as int <= 122) ==> ascii_upper(c) == c,
{
    reveal_strlit("abcdefghijklmnopqrstuvwxyz");
    reveal_strlit("ABCDEFGHIJKLMNOPQRSTUVWXYZ");
    crate::text::lemma_char(c);
    let d = (c as u32 - 32) as char;
    assert(i == 0 || i == 1 || i == 2 || i == 3 || i == 4 || i == 5 || i == 6 || i == 7 || i == 8
        || i == 9 || i == 10 || i == 11 || i == 12 || i == 13 || i == 14 || i == 15 || i == 16 || i
        == 17 || i == 18 || i == 19 || i == 20 || i == 21 || i == 22 || i == 23 || i == 24 || i
        == 25);
}

/// A name of ASCII characters is put in upper case character by character.
pub proof fn law_uppercase_by_character(s: Seq<char>, i: int)
    requires
        forall|k: int| 0 <= k < s.len() ==> #[trigger] s[k] <= '\u{7f}',
        0 <= i < s.len(),
    ensures
        uppercase(s).len() == s.len(),
        uppercase(s)[i] == ascii_upper(s[i]),
{
}

} // verus!

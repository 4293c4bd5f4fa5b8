//! Framing of messages on a byte stream: a length of four bytes, least
//! significant first, then the payload.

use crate::proto::MAX_MESSAGE_BYTES;
use crate::text::{decimal, push_decimal};
use vstd::prelude::*;

verus! {

/// What can go wrong with a frame.
#[derive(Debug)]
pub enum FrameError {
    Io(String),
    TooLarge { got: usize },
    Encode(String),
    Decode(String),
}

/// A frame error with its texts as sequences of characters.
pub enum FrameErrorView {
    Io(Seq<char>),
    TooLarge { got: usize },
    Encode(Seq<char>),
    Decode(Seq<char>),
}

impl View for FrameError {
    type V = FrameErrorView;

    open spec fn view(&self) -> FrameErrorView {
        match *self {
            FrameError::Io(s) => FrameErrorView::Io(s@),
            FrameError::TooLarge { got } => FrameErrorView::TooLarge { got },
            FrameError::Encode(s) => FrameErrorView::Encode(s@),
            FrameError::Decode(s) => FrameErrorView::Decode(s@),
        }
    }
}

/// The message of a frame error.
pub open spec fn frame_message(e: FrameErrorView) -> Seq<char> {
    match e {
        FrameErrorView::Io(s) => "io: "@ + s,
        FrameErrorView::TooLarge { got } => "payload too large: "@ + decimal(got as nat)
            + " bytes (max "@ + decimal(MAX_MESSAGE_BYTES as nat) + ")"@,
        FrameErrorView::Encode(s) => "encode: "@ + s,
        FrameErrorView::Decode(s) => "decode: "@ + s,
    }
}

impl FrameError {
    /// The message of the error.
    pub fn message(&self) -> (m: String)
        ensures
            m@ == frame_message(self@),
    {
        let mut m: String = String::new();
        match self {
            FrameError::Io(s) => {
                m.append("io: ");
                m.append(s.as_str());
            },
            FrameError::TooLarge { got } => {
                m.append("payload too large: ");
                push_decimal(&mut m, *got as u64);
                m.append(" bytes (max ");
                push_decimal(&mut m, MAX_MESSAGE_BYTES as u64);
                m.append(")");
            },
            FrameError::Encode(s) => {
                m.append("encode: ");
                m.append(s.as_str());
            },
            FrameError::Decode(s) => {
                m.append("decode: ");
                m.append(s.as_str());
            },
        }
        assert(m@ == frame_message(self@));
        m
    }
}

/// A number in four bytes, least significant first.
pub open spec fn le_bytes(n: nat) -> Seq<u8> {
    seq![
        (n % 0x100) as u8,
        (n / 0x100 % 0x100) as u8,
        (n / 0x1_0000 % 0x100) as u8,
        (n / 0x100_0000 % 0x100) as u8,
    ]
}

/// The number that four bytes stand for, least significant first.
pub open spec fn le_value(b: Seq<u8>) -> nat {
    (b[0] + b[1] * 0x100 + b[2] * 0x1_0000 + b[3] * 0x100_0000) as nat
}

/// Four bytes of a number, least significant first.
pub fn to_le_bytes(n: u32) -> (b: [u8; 4])
    ensures
        b@ == le_bytes(n as nat),
{
    let b: [u8; 4] = [
        (n % 0x100) as u8,
        (n / 0x100 % 0x100) as u8,
        (n / 0x1_0000 % 0x100) as u8,
        (n / 0x100_0000 % 0x100) as u8,
    ];
    assert(b@ =~= le_bytes(n as nat));
    b
}

/// The number that four bytes stand for, least significant first.
pub fn from_le_bytes(b: [u8; 4]) -> (n: u32)
    ensures
        n == le_value(b@),
{
    b[0] as u32 + b[1] as u32 * 0x100 + b[2] as u32 * 0x1_0000 + b[3] as u32 * 0x100_0000
}

/// A number below 2^32 reads back from its four bytes.
pub proof fn law_length_reads_back(n: nat)
    requires
        n < 0x1_0000_0000,
    ensures
        le_value(le_bytes(n)) == n,
{
}

/// The frame of a payload.
pub open spec fn frame(payload: Seq<u8>) -> Seq<u8> {
    le_bytes(payload.len()) + payload
}

/// Appends to `w` the frame of a message, given what encoding it gave. On an
/// error nothing is written.
pub fn write_frame(w: &mut Vec<u8>, encoded: Result<Vec<u8>, String>) -> (r: Result<
    (),
    FrameError,
>)
    ensures
        r is Ok <==> encoded is Ok && encoded->Ok_0@.len() <= MAX_MESSAGE_BYTES,
        r is Ok <==> encoded is Ok && encoded->Ok_0@.len() <= 65536,
        r is Ok ==> final(w)@ == old(w)@ + frame(encoded->Ok_0@),
        r is Err ==> final(w)@ == old(w)@,
        encoded is Err ==> r->Err_0@ == FrameErrorView::Encode(encoded->Err_0@),
        encoded is Ok && r is Err ==> r->Err_0@ == (FrameErrorView::TooLarge {
            got: encoded->Ok_0@.len() as usize,
        }),
{
    match encoded {
        Err(e) => Err(FrameError::Encode(e)),
        Ok(mut payload) => {
            if payload.len() > MAX_MESSAGE_BYTES {
                return Err(FrameError::TooLarge { got: payload.len() });
            }
            let ghost p = payload@;
            let prefix: [u8; 4] = to_le_bytes(payload.len() as u32);
            w.push(prefix[0]);
            w.push(prefix[1]);
            w.push(prefix[2]);
            w.push(prefix[3]);
            w.append(&mut payload);
            assert(w@ =~= old(w)@ + frame(p));
            Ok(())
        },
    }
}

/// Checks the length that a frame announces, before anything of that size is
/// allocated.
pub fn payload_length(prefix: [u8; 4]) -> (r: Result<usize, FrameError>)
    ensures
        r is Ok <==> le_value(prefix@) <= MAX_MESSAGE_BYTES,
        r is Ok <==> le_value(prefix@) <= 65536,
        r is Ok ==> r->Ok_0 == le_value(prefix@),
        r is Err ==> r->Err_0@ == (FrameErrorView::TooLarge { got: le_value(prefix@) as usize }),
{
    let len: usize = from_le_bytes(prefix) as usize;
    if len > MAX_MESSAGE_BYTES {
        return Err(FrameError::TooLarge { got: len });
    }
    Ok(len)
}

/// What reading a frame from the bytes `s` gives.
pub enum FrameRead {
    /// Fewer bytes than the length takes, or than the length announces.
    Short,
    /// The length is over the limit.
    TooLarge(nat),
    /// The payload.
    Payload(Seq<u8>),
}

/// The frame at the front of `s`.
pub open spec fn frame_at(s: Seq<u8>) -> FrameRead {
    if s.len() < 4 {
        FrameRead::Short
    } else if le_value(s) > MAX_MESSAGE_BYTES {
        FrameRead::TooLarge(le_value(s))
    } else if s.len() < 4 + le_value(s) {
        FrameRead::Short
    } else {
        FrameRead::Payload(s.subrange(4, 4 + le_value(s) as int))
    }
}

/// The text of the error for a stream that ends within a frame.
pub open spec fn short_read() -> Seq<char> {
    "failed to fill whole buffer"@
}

/// Reads one frame from `data` at `pos` and moves `pos` behind it. A stream
/// that ends too early is read to its end; a length over the limit is read
/// and nothing behind it.
pub fn read_frame(data: &[u8], pos: &mut usize) -> (r: Result<Vec<u8>, FrameError>)
    requires
        *old(pos) <= data@.len(),
    ensures
        *old(pos) <= *final(pos) <= data@.len(),
        r is Err && !(r->Err_0@ is TooLarge) ==> r->Err_0@ == FrameErrorView::Io(
            "failed to fill whole buffer"@,
        ) && *final(pos) == data@.len(),
        match frame_at(data@.skip(*old(pos) as int)) {
            FrameRead::Short => r is Err && r->Err_0@ == FrameErrorView::Io(short_read())
                && *final(pos) == data@.len(),
            FrameRead::TooLarge(n) => r is Err && r->Err_0@ == (FrameErrorView::TooLarge {
                got: n as usize,
            }) && *final(pos) == *old(pos) + 4,
            FrameRead::Payload(p) => r is Ok && r->Ok_0@ == p && *final(pos) == *old(pos) + 4
                + p.len(),
        },
{
    let start: usize = *pos;
    let ghost s = data@.skip(start as int);
    if data.len() - start < 4 {
        *pos = data.len();
        return Err(FrameError::Io("failed to fill whole buffer".to_owned()));
    }
    let prefix: [u8; 4] = [data[start], data[start + 1], data[start + 2], data[start + 3]];
    assert(le_value(prefix@) == le_value(s));
    *pos = start + 4;
    let len: usize = match payload_length(prefix) {
        Ok(len) => len,
        Err(e) => {
            return Err(e);
        },
    };
    if data.len() - (start + 4) < len {
        *pos = data.len();
        return Err(FrameError::Io("failed to fill whole buffer".to_owned()));
    }
    let mut payload: Vec<u8> = Vec::new();
    let mut i: usize = 0;
    while i < len
        invariant
            i <= len,
            start + 4 + len <= data.len(),
            s == data@.skip(start as int),
            payload@ == s.subrange(4, 4 + i),
        decreases len - i,
    {
        payload.push(data[start + 4 + i]);
        i = i + 1;
        assert(s.subrange(4, 4 + i) =~= s.subrange(4, 4 + i - 1).push(s[4 + i - 1]));
    }
    *pos = start + 4 + len;
    Ok(payload)
}

/// What decoding a payload gave, as a result of reading a frame.
pub fn decode_frame<T>(decoded: Result<T, String>) -> (r: Result<T, FrameError>)
    ensures
        decoded is Ok ==> r == Ok::<T, FrameError>(decoded->Ok_0),
        decoded is Err ==> r is Err && r->Err_0@ == FrameErrorView::Decode(decoded->Err_0@),
{
    match decoded {
        Ok(v) => Ok(v),
        Err(e) => Err(FrameError::Decode(e)),
    }
}

/// What is written reads back: a payload within the limit, with anything
/// behind its frame, is read as it was written.
pub proof fn law_frame_reads_back(payload: Seq<u8>, rest: Seq<u8>)
    requires
        payload.len() <= MAX_MESSAGE_BYTES,
    ensures
        frame_at(frame(payload) + rest) == FrameRead::Payload(payload),
{
    let s = frame(payload) + rest;
    law_length_reads_back(payload.len());
    assert(le_value(s) == payload.len());
    assert(s.subrange(4, 4 + payload.len() as int) =~= payload);
}

/// A stream that announces more than the limit is rejected, whatever follows.
pub proof fn law_oversized_frame_is_rejected(n: nat, rest: Seq<u8>)
    requires
        MAX_MESSAGE_BYTES < n < 0x1_0000_0000,
    ensures
        frame_at(le_bytes(n) + rest) == FrameRead::TooLarge(n),
{
    law_length_reads_back(n);
    assert(le_value(le_bytes(n) + rest) == n);
}

/// The bytes of a length, the least significant first: the first is the
/// remainder by 256, and the others are those of the quotient. Four bytes are
/// those of the number that they stand for.
pub proof fn law_length_bytes(n: nat, b: Seq<u8>)
    ensures
        le_bytes(n).len() == 4,
        le_bytes(n)[0] == n % 256,
        le_bytes(n)[1] == le_bytes(n / 256)[0],
        le_bytes(n)[2] == le_bytes(n / 256)[1],
        le_bytes(n)[3] == le_bytes(n / 256)[2],
        b.len() == 4 ==> le_bytes(le_value(b)) == b,
{
    assert(n / 0x1_0000 == n / 256 / 0x100);
    assert(n / 0x100_0000 == n / 256 / 0x1_0000);
    if b.len() == 4 {
        lemma_bytes_of_value(b);
    }
}

proof fn lemma_bytes_of_value(b: Seq<u8>)
    requires
        b.len() == 4,
    ensures
        le_bytes(le_value(b)) == b,
{
    let v = le_value(b);
    let upper = b[1] + b[2] * 0x100 + b[3] * 0x1_0000;
    assert(v == b[0] + upper * 0x100);
    assert(v % 0x100 == b[0] && v / 0x100 == upper);
    assert(v / 0x1_0000 == b[2] + b[3] * 0x100);
    assert(v / 0x100_0000 == b[3]);
    assert(upper % 0x100 == b[1]);
    assert(le_bytes(v) =~= b);
}

/// A payload is read exactly where the bytes begin with its length, in four
/// bytes, and the payload itself, and the length is at most 65536.
pub proof fn law_frame_is_length_and_payload(s: Seq<u8>, p: Seq<u8>)
    ensures
        frame_at(s) == FrameRead::Payload(p) <==> {
            &&& p.len() <= 65536
            &&& s.len() >= 4 + p.len()
            &&& s.take(4) == le_bytes(p.len())
            &&& s.subrange(4, 4 + p.len() as int) == p
        },
{
    if s.len() >= 4 {
        assert(le_value(s) == le_value(s.take(4)));
        law_length_bytes(0, s.take(4));
    }
    if p.len() <= 65536 && s.len() >= 4 + p.len() && s.take(4) == le_bytes(p.len()) {
        law_length_reads_back(p.len());
    }
}

/// A length is over the limit where the first four bytes stand for more than
/// 65536, and the rest of the stream does not matter.
pub proof fn law_frame_over_the_limit(s: Seq<u8>, n: nat)
    ensures
        frame_at(s) == FrameRead::TooLarge(n) <==> {
            &&& 65536 < n < 0x1_0000_0000
            &&& s.len() >= 4
            &&& s.take(4) == le_bytes(n)
        },
        frame_at(s) is Short <==> {
            ||| s.len() < 4
            ||| exists|k: nat|
                k <= 65536 && s.take(4) == #[trigger] le_bytes(k) && s.len() < 4 + k
        },
{
    if s.len() >= 4 {
        assert(le_value(s) == le_value(s.take(4)));
        law_length_bytes(0, s.take(4));
        assert(s.take(4) == le_bytes(le_value(s)));
        assert forall|k: nat| k < 0x1_0000_0000 && s.take(4) == #[trigger] le_bytes(k) implies k
            == le_value(s) by {
            law_length_reads_back(k);
        }
    }
}

/// The messages of the errors: what failed stands in them as it is, and a length
/// that is over the limit beside the limit.
pub proof fn law_frame_messages(s: Seq<char>, got: usize)
    ensures
        frame_message(FrameErrorView::Io(s)) == "io: "@ + s,
        frame_message(FrameErrorView::Encode(s)) == "encode: "@ + s,
        frame_message(FrameErrorView::Decode(s)) == "decode: "@ + s,
        frame_message(FrameErrorView::TooLarge { got }) == "payload too large: "@ + decimal(
            got as nat,
        ) + " bytes (max 65536)"@,
{
    reveal_strlit(" bytes (max 65536)");
    reveal_strlit(" bytes (max ");
    reveal_strlit(")");
    reveal_with_fuel(decimal, 5);
    assert(decimal(65536) =~= seq!['6', '5', '5', '3', '6']);
    assert(" bytes (max "@ + decimal(65536) + ")"@ =~= " bytes (max 65536)"@);
    assert(frame_message(FrameErrorView::TooLarge { got }) =~= "payload too large: "@ + decimal(
        got as nat,
    ) + (" bytes (max "@ + decimal(65536) + ")"@));
}

/// A frame is four bytes longer than its payload: the bytes of the length, and
/// the payload.
pub proof fn law_frame_layout(payload: Seq<u8>)
    ensures
        frame(payload).len() == 4 + payload.len(),
        frame(payload).take(4) == le_bytes(payload.len()),
        frame(payload).skip(4) == payload,
{
    assert(frame(payload).take(4) =~= le_bytes(payload.len()));
    assert(frame(payload).skip(4) =~= payload);
}

} // verus!

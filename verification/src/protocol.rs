//! The interface protocol: message kinds and their wire framing.
//!
//! Every input, output and zero-divisor resolution is one synchronous
//! request/response exchange with the interface process.  Messages travel as
//! independent, self-describing binary records: a tag byte names the kind,
//! integers follow as eight big-endian two's-complement bytes, single
//! characters as one byte, and diagnostic text as a four-byte big-endian
//! length followed by that many bytes.  Encoding and decoding are verified
//! to round-trip losslessly; the transport itself (a local socket) lives
//! outside this crate and moves the frames as plain bytes.

use crate::bytes::bytes_range;
use crate::engine::{Emit, EndAction, Need};
use vstd::prelude::*;

verus! {

/// The request/reply messages exchanged with an interface process.
#[derive(Clone, Debug, PartialEq, Eq)]
pub enum Request {
    /// Session establishment signal; accepted and otherwise unused.
    OpenConnection,
    /// Acknowledgement of an output-class request.
    Ack,
    /// Sent by the interface on a request kind it did not expect.
    Nack,
    /// Ask the operator to resolve a division by zero.
    DivByZero,
    DivByZeroAns(i64),
    /// Ask the operator to resolve a modulo by zero.
    ModByZero,
    ModByZeroAns(i64),
    /// Print the decimal rendering of the value.
    PrintInteger(i64),
    /// Print one character by its code.
    PrintAscii(u8),
    /// Ask the operator for an integer.
    GetInteger,
    GetIntegerAns(i64),
    /// Ask the operator for a character.
    GetAscii,
    GetAsciiAns(u8),
    /// Ask the output interface to flush what it buffered.
    FlushOutput,
    /// A line of diagnostic text.
    Debug(Vec<u8>),
    /// End the current exchange's connection.
    CloseConnection,
    /// Tell the interface process to exit entirely.
    CloseUi,
}

/// The mathematical value of a message.
pub enum RequestModel {
    OpenConnection,
    Ack,
    Nack,
    DivByZero,
    DivByZeroAns(i64),
    ModByZero,
    ModByZeroAns(i64),
    PrintInteger(i64),
    PrintAscii(u8),
    GetInteger,
    GetIntegerAns(i64),
    GetAscii,
    GetAsciiAns(u8),
    FlushOutput,
    Debug(Seq<u8>),
    CloseConnection,
    CloseUi,
}

impl View for Request {
    type V = RequestModel;

    open spec fn view(&self) -> RequestModel {
        match self {
            Request::OpenConnection => RequestModel::OpenConnection,
            Request::Ack => RequestModel::Ack,
            Request::Nack => RequestModel::Nack,
            Request::DivByZero => RequestModel::DivByZero,
            Request::DivByZeroAns(v) => RequestModel::DivByZeroAns(*v),
            Request::ModByZero => RequestModel::ModByZero,
            Request::ModByZeroAns(v) => RequestModel::ModByZeroAns(*v),
            Request::PrintInteger(v) => RequestModel::PrintInteger(*v),
            Request::PrintAscii(b) => RequestModel::PrintAscii(*b),
            Request::GetInteger => RequestModel::GetInteger,
            Request::GetIntegerAns(v) => RequestModel::GetIntegerAns(*v),
            Request::GetAscii => RequestModel::GetAscii,
            Request::GetAsciiAns(b) => RequestModel::GetAsciiAns(*b),
            Request::FlushOutput => RequestModel::FlushOutput,
            Request::Debug(t) => RequestModel::Debug(t@),
            Request::CloseConnection => RequestModel::CloseConnection,
            Request::CloseUi => RequestModel::CloseUi,
        }
    }
}

/// A message that the framing can carry: diagnostic text fits its four-byte
/// length field.
pub open spec fn request_model_wf(m: RequestModel) -> bool {
    match m {
        RequestModel::Debug(t) => t.len() <= u32::MAX,
        _ => true,
    }
}

/// The eight bytes of an integer, most significant first.
pub open spec fn be_bytes_of_u64(u: u64) -> Seq<u8> {
    seq![
        (u >> 56) as u8,
        (u >> 48) as u8,
        (u >> 40) as u8,
        (u >> 32) as u8,
        (u >> 24) as u8,
        (u >> 16) as u8,
        (u >> 8) as u8,
        u as u8,
    ]
}

/// The integer carried by eight bytes, most significant first.
pub open spec fn u64_of_be_bytes(b: Seq<u8>) -> u64
    recommends
        b.len() == 8,
{
    ((b[0] as u64) << 56) | ((b[1] as u64) << 48) | ((b[2] as u64) << 40) | ((b[3] as u64) << 32)
        | ((b[4] as u64) << 24) | ((b[5] as u64) << 16) | ((b[6] as u64) << 8) | (b[7] as u64)
}

/// The four bytes of a length, most significant first.
pub open spec fn be_bytes_of_u32(u: u32) -> Seq<u8> {
    seq![(u >> 24) as u8, (u >> 16) as u8, (u >> 8) as u8, u as u8]
}

/// The length carried by four bytes, most significant first.
pub open spec fn u32_of_be_bytes(b: Seq<u8>) -> u32
    recommends
        b.len() == 4,
{
    ((b[0] as u32) << 24) | ((b[1] as u32) << 16) | ((b[2] as u32) << 8) | (b[3] as u32)
}

proof fn lemma_u64_be_roundtrip(u: u64)
    ensures
        u64_of_be_bytes(be_bytes_of_u64(u)) == u,
{
    assert(((((u >> 56) as u8) as u64) << 56) | ((((u >> 48) as u8) as u64) << 48) | ((((u >> 40)
        as u8) as u64) << 40) | ((((u >> 32) as u8) as u64) << 32) | ((((u >> 24) as u8) as u64)
        << 24) | ((((u >> 16) as u8) as u64) << 16) | ((((u >> 8) as u8) as u64) << 8) | ((u as u8)
        as u64) == u) by (bit_vector);
}

proof fn lemma_u32_be_roundtrip(u: u32)
    ensures
        u32_of_be_bytes(be_bytes_of_u32(u)) == u,
{
    assert(((((u >> 24) as u8) as u32) << 24) | ((((u >> 16) as u8) as u32) << 16) | ((((u >> 8)
        as u8) as u32) << 8) | ((u as u8) as u32) == u) by (bit_vector);
}

proof fn lemma_i64_u64_roundtrip(v: i64)
    ensures
        ((v as u64) as i64) == v,
{
    assert(((v as u64) as i64) == v) by (bit_vector);
}

/// The tag byte that names each message kind.
pub open spec fn tag_of(m: RequestModel) -> u8 {
    match m {
        RequestModel::OpenConnection => 1,
        RequestModel::Ack => 2,
        RequestModel::Nack => 3,
        RequestModel::DivByZero => 4,
        RequestModel::DivByZeroAns(_) => 5,
        RequestModel::ModByZero => 6,
        RequestModel::ModByZeroAns(_) => 7,
        RequestModel::PrintInteger(_) => 8,
        RequestModel::PrintAscii(_) => 9,
        RequestModel::GetInteger => 10,
        RequestModel::GetIntegerAns(_) => 11,
        RequestModel::GetAscii => 12,
        RequestModel::GetAsciiAns(_) => 13,
        RequestModel::FlushOutput => 14,
        RequestModel::Debug(_) => 15,
        RequestModel::CloseConnection => 16,
        RequestModel::CloseUi => 17,
    }
}

/// The frame of a message: its tag byte followed by its payload.
pub open spec fn spec_encode(m: RequestModel) -> Seq<u8> {
    match m {
        RequestModel::DivByZeroAns(v) => seq![tag_of(m)] + be_bytes_of_u64(v as u64),
        RequestModel::ModByZeroAns(v) => seq![tag_of(m)] + be_bytes_of_u64(v as u64),
        RequestModel::PrintInteger(v) => seq![tag_of(m)] + be_bytes_of_u64(v as u64),
        RequestModel::GetIntegerAns(v) => seq![tag_of(m)] + be_bytes_of_u64(v as u64),
        RequestModel::PrintAscii(b) => seq![tag_of(m), b],
        RequestModel::GetAsciiAns(b) => seq![tag_of(m), b],
        RequestModel::Debug(t) => seq![tag_of(m)] + be_bytes_of_u32(t.len() as u32) + t,
        _ => seq![tag_of(m)],
    }
}

/// The message carried by a whole frame, or `None` where the bytes are no
/// frame: an unknown tag, a short or overlong payload.
pub open spec fn spec_decode(s: Seq<u8>) -> Option<RequestModel> {
    if s.len() == 0 {
        None
    } else {
        let tag = s[0];
        if tag == 1 || tag == 2 || tag == 3 || tag == 4 || tag == 6 || tag == 10 || tag == 12
            || tag == 14 || tag == 16 || tag == 17 {
            if s.len() != 1 {
                None
            } else if tag == 1 {
                Some(RequestModel::OpenConnection)
            } else if tag == 2 {
                Some(RequestModel::Ack)
            } else if tag == 3 {
                Some(RequestModel::Nack)
            } else if tag == 4 {
                Some(RequestModel::DivByZero)
            } else if tag == 6 {
                Some(RequestModel::ModByZero)
            } else if tag == 10 {
                Some(RequestModel::GetInteger)
            } else if tag == 12 {
                Some(RequestModel::GetAscii)
            } else if tag == 14 {
                Some(RequestModel::FlushOutput)
            } else if tag == 16 {
                Some(RequestModel::CloseConnection)
            } else {
                Some(RequestModel::CloseUi)
            }
        } else if tag == 5 || tag == 7 || tag == 8 || tag == 11 {
            if s.len() != 9 {
                None
            } else {
                let v = u64_of_be_bytes(s.skip(1)) as i64;
                if tag == 5 {
                    Some(RequestModel::DivByZeroAns(v))
                } else if tag == 7 {
                    Some(RequestModel::ModByZeroAns(v))
                } else if tag == 8 {
                    Some(RequestModel::PrintInteger(v))
                } else {
                    Some(RequestModel::GetIntegerAns(v))
                }
            }
        } else if tag == 9 || tag == 13 {
            if s.len() != 2 {
                None
            } else if tag == 9 {
                Some(RequestModel::PrintAscii(s[1]))
            } else {
                Some(RequestModel::GetAsciiAns(s[1]))
            }
        } else if tag == 15 {
            if s.len() < 5 {
                None
            } else if s.len() == 5 + u32_of_be_bytes(s.subrange(1, 5)) {
                Some(RequestModel::Debug(s.skip(5)))
            } else {
                None
            }
        } else {
            None
        }
    }
}

/// Append the eight big-endian bytes of `u` to `out`.
fn push_be_u64(out: &mut Vec<u8>, u: u64)
    ensures
        final(out)@ == old(out)@ + be_bytes_of_u64(u),
{
    out.push((u >> 56) as u8);
    out.push((u >> 48) as u8);
    out.push((u >> 40) as u8);
    out.push((u >> 32) as u8);
    out.push((u >> 24) as u8);
    out.push((u >> 16) as u8);
    out.push((u >> 8) as u8);
    out.push(u as u8);
    proof {
        assert(out@ =~= old(out)@ + be_bytes_of_u64(u));
    }
}

/// Frame a message for the wire, as [`spec_encode`] describes.
pub fn encode_request(m: &Request) -> (r: Vec<u8>)
    requires
        request_model_wf(m@),
    ensures
        r@ == spec_encode(m@),
{
    let mut out: Vec<u8> = Vec::new();
    match m {
        Request::OpenConnection => out.push(1),
        Request::Ack => out.push(2),
        Request::Nack => out.push(3),
        Request::DivByZero => out.push(4),
        Request::DivByZeroAns(v) => {
            out.push(5);
            push_be_u64(&mut out, *v as u64);
        },
        Request::ModByZero => out.push(6),
        Request::ModByZeroAns(v) => {
            out.push(7);
            push_be_u64(&mut out, *v as u64);
        },
        Request::PrintInteger(v) => {
            out.push(8);
            push_be_u64(&mut out, *v as u64);
        },
        Request::PrintAscii(b) => {
            out.push(9);
            out.push(*b);
        },
        Request::GetInteger => out.push(10),
        Request::GetIntegerAns(v) => {
            out.push(11);
            push_be_u64(&mut out, *v as u64);
        },
        Request::GetAscii => out.push(12),
        Request::GetAsciiAns(b) => {
            out.push(13);
            out.push(*b);
        },
        Request::FlushOutput => out.push(14),
        Request::Debug(t) => {
            out.push(15);
            let n = t.len() as u32;
            out.push((n >> 24) as u8);
            out.push((n >> 16) as u8);
            out.push((n >> 8) as u8);
            out.push(n as u8);
            let mut i: usize = 0;
            while i < t.len()
                invariant
                    i <= t@.len(),
                    out@ == seq![15u8] + be_bytes_of_u32(t@.len() as u32) + t@.take(i as int),
                decreases t@.len() - i,
            {
                out.push(t[i]);
                i = i + 1;
                proof {
                    assert(out@ =~= seq![15u8] + be_bytes_of_u32(t@.len() as u32) + t@.take(
                        i as int,
                    ));
                }
            }
            proof {
                assert(t@.take(t@.len() as int) =~= t@);
            }
        },
        Request::CloseConnection => out.push(16),
        Request::CloseUi => out.push(17),
    }
    proof {
        assert(out@ =~= spec_encode(m@));
    }
    out
}

/// Read the eight big-endian bytes at `at`.
fn read_be_u64(s: &[u8], at: usize) -> (r: u64)
    requires
        at + 8 <= s.len(),
    ensures
        r == u64_of_be_bytes(s@.subrange(at as int, at as int + 8)),
{
    let r = ((s[at] as u64) << 56) | ((s[at + 1] as u64) << 48) | ((s[at + 2] as u64) << 40) | ((
    s[at + 3] as u64) << 32) | ((s[at + 4] as u64) << 24) | ((s[at + 5] as u64) << 16) | ((s[at
        + 6] as u64) << 8) | (s[at + 7] as u64);
    proof {
        let b = s@.subrange(at as int, at as int + 8);
        assert(b[0] == s@[at as int] && b[1] == s@[at as int + 1] && b[2] == s@[at as int + 2]
            && b[3] == s@[at as int + 3] && b[4] == s@[at as int + 4] && b[5] == s@[at as int + 5]
            && b[6] == s@[at as int + 6] && b[7] == s@[at as int + 7]);
    }
    r
}

/// Parse a whole frame, as [`spec_decode`] describes: bytes that are no
/// frame are a fatal serialization failure.
pub fn decode_request(s: &[u8]) -> (r: Result<Request, ProtocolError>)
    ensures
        match r {
            Ok(q) => spec_decode(s@) == Some(q@),
            Err(e) => spec_decode(s@) is None && e == ProtocolError::MalformedFrame,
        },
{
    if s.len() == 0 {
        return Err(ProtocolError::MalformedFrame);
    }
    let tag = s[0];
    if tag >= 1 && tag <= 17 && tag != 5 && tag != 7 && tag != 8 && tag != 9 && tag != 11 && tag
        != 13 && tag != 15 {
        if s.len() != 1 {
            return Err(ProtocolError::MalformedFrame);
        }
        if tag == 1 {
            Ok(Request::OpenConnection)
        } else if tag == 2 {
            Ok(Request::Ack)
        } else if tag == 3 {
            Ok(Request::Nack)
        } else if tag == 4 {
            Ok(Request::DivByZero)
        } else if tag == 6 {
            Ok(Request::ModByZero)
        } else if tag == 10 {
            Ok(Request::GetInteger)
        } else if tag == 12 {
            Ok(Request::GetAscii)
        } else if tag == 14 {
            Ok(Request::FlushOutput)
        } else if tag == 16 {
            Ok(Request::CloseConnection)
        } else {
            Ok(Request::CloseUi)
        }
    } else if tag == 5 || tag == 7 || tag == 8 || tag == 11 {
        if s.len() != 9 {
            return Err(ProtocolError::MalformedFrame);
        }
        let u = read_be_u64(s, 1);
        let v = u as i64;
        proof {
            assert(s@.subrange(1, 9) =~= s@.skip(1));
        }
        if tag == 5 {
            Ok(Request::DivByZeroAns(v))
        } else if tag == 7 {
            Ok(Request::ModByZeroAns(v))
        } else if tag == 8 {
            Ok(Request::PrintInteger(v))
        } else {
            Ok(Request::GetIntegerAns(v))
        }
    } else if tag == 9 || tag == 13 {
        if s.len() != 2 {
            return Err(ProtocolError::MalformedFrame);
        }
        if tag == 9 {
            Ok(Request::PrintAscii(s[1]))
        } else {
            Ok(Request::GetAsciiAns(s[1]))
        }
    } else if tag == 15 {
        if s.len() < 5 {
            return Err(ProtocolError::MalformedFrame);
        }
        let n = ((s[1] as u32) << 24) | ((s[2] as u32) << 16) | ((s[3] as u32) << 8) | (s[4]
            as u32);
        proof {
            let b = s@.subrange(1, 5);
            assert(b[0] == s@[1] && b[1] == s@[2] && b[2] == s@[3] && b[3] == s@[4]);
        }
        if n as u64 != (s.len() - 5) as u64 {
            return Err(ProtocolError::MalformedFrame);
        }
        let t = bytes_range(s, 5, s.len());
        proof {
            assert(t@ =~= s@.skip(5));
        }
        Ok(Request::Debug(t))
    } else {
        Err(ProtocolError::MalformedFrame)
    }
}

/// Lossless framing: decoding the frame of any message yields the message.
pub proof fn lemma_codec_roundtrip(m: RequestModel)
    requires
        request_model_wf(m),
    ensures
        spec_decode(spec_encode(m)) == Some(m),
{
    let s = spec_encode(m);
    match m {
        RequestModel::DivByZeroAns(v) | RequestModel::ModByZeroAns(v)
            | RequestModel::PrintInteger(v) | RequestModel::GetIntegerAns(v) => {
            assert(s.skip(1) =~= be_bytes_of_u64(v as u64));
            lemma_u64_be_roundtrip(v as u64);
            lemma_i64_u64_roundtrip(v);
        },
        RequestModel::Debug(t) => {
            assert(s.subrange(1, 5) =~= be_bytes_of_u32(t.len() as u32));
            lemma_u32_be_roundtrip(t.len() as u32);
            assert(s.skip(5) =~= t);
        },
        _ => {},
    }
}

/// A failed exchange.  A transport failure is the caller's to report; these
/// are the protocol-level faults, all fatal to the run.
#[derive(Clone, Copy, PartialEq, Eq, Structural, Debug)]
pub enum ProtocolError {
    /// The bytes received are not a frame of the protocol.
    MalformedFrame,
    /// The reply is a well-formed message of the wrong kind.
    UnexpectedReply,
}

/// The request that a suspended instruction sends to the interface.
pub fn request_for_need(n: Need) -> (r: Request)
    ensures
        r@ == match n {
            Need::DivByZero => RequestModel::DivByZero,
            Need::ModByZero => RequestModel::ModByZero,
            Need::InputInteger => RequestModel::GetInteger,
            Need::InputAscii => RequestModel::GetAscii,
        },
{
    match n {
        Need::DivByZero => Request::DivByZero,
        Need::ModByZero => Request::ModByZero,
        Need::InputInteger => Request::GetInteger,
        Need::InputAscii => Request::GetAscii,
    }
}

/// The request that emits a value on the output interface.
pub fn request_for_emit(e: Emit) -> (r: Request)
    ensures
        r@ == match e {
            Emit::Integer(v) => RequestModel::PrintInteger(v),
            Emit::Ascii(b) => RequestModel::PrintAscii(b),
        },
{
    match e {
        Emit::Integer(v) => Request::PrintInteger(v),
        Emit::Ascii(b) => Request::PrintAscii(b),
    }
}

/// The request that the halt instruction sends, if any.
pub fn request_for_end(a: EndAction) -> (r: Option<Request>)
    ensures
        match a {
            EndAction::CloseUi => r matches Some(q) && q@ == RequestModel::CloseUi,
            EndAction::Flush => r matches Some(q) && q@ == RequestModel::FlushOutput,
            EndAction::Nothing => r is None,
        },
{
    match a {
        EndAction::CloseUi => Some(Request::CloseUi),
        EndAction::Flush => Some(Request::FlushOutput),
        EndAction::Nothing => None,
    }
}

/// The answer that a reply carries for what a suspended instruction needs.
pub open spec fn spec_reply_value(n: Need, reply: RequestModel) -> Result<i64, ProtocolError> {
    match (n, reply) {
        (Need::DivByZero, RequestModel::DivByZeroAns(v)) => Ok(v),
        (Need::ModByZero, RequestModel::ModByZeroAns(v)) => Ok(v),
        (Need::InputInteger, RequestModel::GetIntegerAns(v)) => Ok(v),
        (Need::InputAscii, RequestModel::GetAsciiAns(b)) => Ok(b as i64),
        _ => Err(ProtocolError::UnexpectedReply),
    }
}

/// Take the answer out of a reply; a reply of any other kind is a fatal
/// protocol error.
pub fn reply_value(n: Need, reply: &Request) -> (r: Result<i64, ProtocolError>)
    ensures
        r == spec_reply_value(n, reply@),
{
    match (n, reply) {
        (Need::DivByZero, Request::DivByZeroAns(v)) => Ok(*v),
        (Need::ModByZero, Request::ModByZeroAns(v)) => Ok(*v),
        (Need::InputInteger, Request::GetIntegerAns(v)) => Ok(*v),
        (Need::InputAscii, Request::GetAsciiAns(b)) => Ok(*b as i64),
        _ => Err(ProtocolError::UnexpectedReply),
    }
}

/// Whether a reply acknowledges an output-class request.
pub fn is_ack(reply: &Request) -> (r: bool)
    ensures
        r == (reply@ is Ack),
{
    match reply {
        Request::Ack => true,
        _ => false,
    }
}

/// How many payload bytes follow a tag byte on the wire: a fixed count, or,
/// for diagnostic text, a four-byte length that precedes the text itself.
#[derive(Clone, Copy, PartialEq, Eq, Structural, Debug)]
pub enum PayloadShape {
    /// No payload.
    Empty,
    /// Eight bytes of integer.
    Int,
    /// One byte of character.
    Byte,
    /// Four bytes of length, then that many bytes of text.
    Text,
}

/// The payload shape of a tag byte, or `None` for a tag the protocol does
/// not know.  A reader uses this to take one whole frame off the stream.
pub fn tag_shape(tag: u8) -> (r: Option<PayloadShape>)
    ensures
        match r {
            Some(PayloadShape::Int) => tag == 5 || tag == 7 || tag == 8 || tag == 11,
            Some(PayloadShape::Byte) => tag == 9 || tag == 13,
            Some(PayloadShape::Text) => tag == 15,
            Some(PayloadShape::Empty) => 1 <= tag <= 17 && !(tag == 5 || tag == 7 || tag == 8
                || tag == 9 || tag == 11 || tag == 13 || tag == 15),
            None => !(1 <= tag <= 17),
        },
{
    if tag == 5 || tag == 7 || tag == 8 || tag == 11 {
        Some(PayloadShape::Int)
    } else if tag == 9 || tag == 13 {
        Some(PayloadShape::Byte)
    } else if tag == 15 {
        Some(PayloadShape::Text)
    } else if tag >= 1 && tag <= 17 {
        Some(PayloadShape::Empty)
    } else {
        None
    }
}

} // verus!

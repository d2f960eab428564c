//! The OTMP wire codec.
//!
//! A frame is the magic `"OTMP"`, a type byte, the payload length as two
//! big-endian bytes and the payload:
//!
//! | type | message | payload |
//! |---|---|---|
//! | 0 | `BroadcastGreet` | user name, UTF-8, 1 to 100 bytes |
//! | 1 | `BroadcastResponse` | user name, UTF-8, 1 to 100 bytes |
//! | 2 | `BroadcastBye` | empty |
//! | 3 | `Greet` | point, SEC1 |
//! | 4 | `Response` | point, SEC1 |
//! | 5 | `Data` | length of the first ciphertext (two bytes), first ciphertext, second ciphertext |

use crate::connection::{valid_username, Username, UsernameError, MAX_USERNAME_LEN};
use crate::crypto::CryptoError;
use crate::curve::{identity_sec1, is_point, sec1_point, CurvePoint};
use crate::text::string_from_utf8;
use vstd::prelude::*;
use vstd::slice::*;
use vstd::string::*;
use vstd::utf8::*;

verus! {

/// The length of a frame's header: four bytes of magic, the type byte and two
/// bytes of payload length.
pub const HEADER_SIZE: usize = 7;

/// The largest payload that the two length bytes can announce.
pub const MAX_PAYLOAD_LEN: usize = 65535;

/// The magic that opens every frame: `"OTMP"` in ASCII.
pub open spec fn magic() -> Seq<u8> {
    seq![0x4Fu8, 0x54u8, 0x4Du8, 0x50u8]
}

/// The two bytes that announce a length, most significant first. A length
/// that two bytes cannot hold is announced modulo 65536.
pub open spec fn be16(n: nat) -> Seq<u8> {
    seq![((n / 256) % 256) as u8, (n % 256) as u8]
}

/// The length that two bytes announce.
pub open spec fn be16_value(hi: u8, lo: u8) -> int {
    (hi as int) * 256 + (lo as int)
}

/// The frame of the given type around `payload`.
pub open spec fn frame(type_byte: u8, payload: Seq<u8>) -> Seq<u8> {
    magic() + seq![type_byte] + be16(payload.len()) + payload
}

/// Why bytes are no message.
#[derive(Clone, Copy, Debug, PartialEq, Eq, Structural)]
pub enum MessageError {
    /// There are fewer bytes than a header has.
    MissingHeaderBytes,
    /// The bytes do not start with the magic.
    InvalidMagicNumber,
    /// The type byte names no message.
    InvalidMessageType,
    /// The announced length is not that of the payload, or the payload's
    /// length is not one that the message type allows.
    InvalidMessageLength,
    /// A user name is not UTF-8.
    InvalidUtf8,
    /// A user name is empty or too long.
    InvalidUsername(UsernameError),
    /// A point is not on the curve, or is the identity.
    InvalidCrypto(CryptoError),
}

/// A protocol message.
#[derive(Debug, PartialEq, Eq)]
pub enum Message {
    /// Announces a host to the network.
    BroadcastGreet(Username),
    /// Answers an announcement.
    BroadcastResponse(Username),
    /// Announces that a host leaves.
    BroadcastBye,
    /// Opens an exchange with the initiator's public point.
    Greet(CurvePoint),
    /// Answers `Greet` with the responder's point.
    Response(CurvePoint),
    /// The two ciphertexts.
    Data(Vec<u8>, Vec<u8>),
}

/// A message as a mathematical value: names as characters, points and
/// ciphertexts as bytes.
pub enum MessageView {
    BroadcastGreet(Seq<char>),
    BroadcastResponse(Seq<char>),
    BroadcastBye,
    Greet(Seq<u8>),
    Response(Seq<u8>),
    Data(Seq<u8>, Seq<u8>),
}

impl MessageView {
    /// The type byte of the message.
    pub open spec fn type_byte(self) -> u8 {
        match self {
            MessageView::BroadcastGreet(_) => 0,
            MessageView::BroadcastResponse(_) => 1,
            MessageView::BroadcastBye => 2,
            MessageView::Greet(_) => 3,
            MessageView::Response(_) => 4,
            MessageView::Data(_, _) => 5,
        }
    }

    /// The payload of the message.
    pub open spec fn payload(self) -> Seq<u8> {
        match self {
            MessageView::BroadcastGreet(name) => encode_utf8(name),
            MessageView::BroadcastResponse(name) => encode_utf8(name),
            MessageView::BroadcastBye => Seq::empty(),
            MessageView::Greet(point) => point,
            MessageView::Response(point) => point,
            MessageView::Data(c0, c1) => be16(c0.len()) + c0 + c1,
        }
    }

    /// The frame of the message.
    pub open spec fn encode(self) -> Seq<u8> {
        frame(self.type_byte(), self.payload())
    }

    /// What holds of every message that executable code holds: names are
    /// valid and points are points.
    pub open spec fn wf(self) -> bool {
        match self {
            MessageView::BroadcastGreet(name) => valid_username(name),
            MessageView::BroadcastResponse(name) => valid_username(name),
            MessageView::BroadcastBye => true,
            MessageView::Greet(point) => is_point(point),
            MessageView::Response(point) => is_point(point),
            MessageView::Data(_, _) => true,
        }
    }

    /// The message is one that a receiver accepts: a point is not the
    /// identity, and the two ciphertexts fit, with their length bytes, in the
    /// largest payload.
    pub open spec fn conforming(self) -> bool {
        match self {
            MessageView::Greet(point) => point != identity_sec1(),
            MessageView::Response(point) => point != identity_sec1(),
            MessageView::Data(c0, c1) => 2 + c0.len() + c1.len() <= MAX_PAYLOAD_LEN,
            _ => true,
        }
    }
}

/// The user name that a payload carries.
pub open spec fn decode_name(payload: Seq<u8>) -> Result<Seq<char>, MessageError> {
    if !valid_utf8(payload) {
        Err(MessageError::InvalidUtf8)
    } else if payload.len() == 0 {
        Err(MessageError::InvalidUsername(UsernameError::Empty))
    } else if payload.len() > MAX_USERNAME_LEN {
        Err(MessageError::InvalidUsername(UsernameError::TooLong))
    } else {
        Ok(decode_utf8(payload))
    }
}

/// The point that a payload carries: any SEC1 encoding of a point other than
/// the identity, as its compressed encoding.
pub open spec fn decode_point(payload: Seq<u8>) -> Result<Seq<u8>, MessageError> {
    match sec1_point(payload) {
        Some(point) => if point == identity_sec1() {
            Err(MessageError::InvalidCrypto(CryptoError::InvalidPoint))
        } else {
            Ok(point)
        },
        None => Err(MessageError::InvalidCrypto(CryptoError::InvalidPoint)),
    }
}

/// The two ciphertexts that a payload carries.
pub open spec fn decode_data(payload: Seq<u8>) -> Result<(Seq<u8>, Seq<u8>), MessageError> {
    if payload.len() < 2 {
        Err(MessageError::InvalidMessageLength)
    } else {
        let len0 = be16_value(payload[0], payload[1]);
        if len0 > payload.len() - 2 {
            Err(MessageError::InvalidMessageLength)
        } else {
            Ok(
                (
                    payload.subrange(2, 2 + len0),
                    payload.subrange(2 + len0, payload.len() as int),
                ),
            )
        }
    }
}

/// The message of the given type that a payload carries.
pub open spec fn decode_payload(type_byte: u8, payload: Seq<u8>) -> Result<
    MessageView,
    MessageError,
> {
    if type_byte == 0 {
        match decode_name(payload) {
            Ok(name) => Ok(MessageView::BroadcastGreet(name)),
            Err(e) => Err(e),
        }
    } else if type_byte == 1 {
        match decode_name(payload) {
            Ok(name) => Ok(MessageView::BroadcastResponse(name)),
            Err(e) => Err(e),
        }
    } else if type_byte == 2 {
        if payload.len() == 0 {
            Ok(MessageView::BroadcastBye)
        } else {
            Err(MessageError::InvalidMessageLength)
        }
    } else if type_byte == 3 {
        match decode_point(payload) {
            Ok(point) => Ok(MessageView::Greet(point)),
            Err(e) => Err(e),
        }
    } else if type_byte == 4 {
        match decode_point(payload) {
            Ok(point) => Ok(MessageView::Response(point)),
            Err(e) => Err(e),
        }
    } else if type_byte == 5 {
        match decode_data(payload) {
            Ok((c0, c1)) => Ok(MessageView::Data(c0, c1)),
            Err(e) => Err(e),
        }
    } else {
        Err(MessageError::InvalidMessageType)
    }
}

/// The message that a datagram carries, or why it carries none.
///
/// The checks come in this order: the header is there, the magic is right,
/// the announced length is that of the rest, the type and the payload are
/// acceptable.
pub open spec fn decode(bytes: Seq<u8>) -> Result<MessageView, MessageError> {
    if bytes.len() < HEADER_SIZE {
        Err(MessageError::MissingHeaderBytes)
    } else if bytes.subrange(0, 4) != magic() {
        Err(MessageError::InvalidMagicNumber)
    } else if bytes.len() != HEADER_SIZE + be16_value(bytes[5], bytes[6]) {
        Err(MessageError::InvalidMessageLength)
    } else {
        decode_payload(bytes[4], bytes.subrange(HEADER_SIZE as int, bytes.len() as int))
    }
}

impl View for Message {
    type V = MessageView;

    open spec fn view(&self) -> MessageView {
        match self {
            Message::BroadcastGreet(name) => MessageView::BroadcastGreet(name@),
            Message::BroadcastResponse(name) => MessageView::BroadcastResponse(name@),
            Message::BroadcastBye => MessageView::BroadcastBye,
            Message::Greet(point) => MessageView::Greet(point@),
            Message::Response(point) => MessageView::Response(point@),
            Message::Data(c0, c1) => MessageView::Data(c0@, c1@),
        }
    }
}

/// The two length bytes for `len`, most significant first.
fn length_bytes(len: usize) -> (r: [u8; 2])
    ensures
        r@ == be16(len as nat),
{
    let hi: u8 = ((len / 256) % 256) as u8;
    let lo: u8 = (len % 256) as u8;
    let r = [hi, lo];
    assert(r@ =~= be16(len as nat));
    r
}

/// Builds the frame of the given type around `data`.
pub fn buffer(type_byte: u8, data: &[u8]) -> (r: Vec<u8>)
    ensures
        r@ == frame(type_byte, data@),
{
    let mut buffer: Vec<u8> = Vec::new();
    buffer.push(0x4F);
    buffer.push(0x54);
    buffer.push(0x4D);
    buffer.push(0x50);
    buffer.push(type_byte);
    let len = length_bytes(data.len());
    buffer.push(len[0]);
    buffer.push(len[1]);
    buffer.extend_from_slice(data);
    assert(buffer@ =~= frame(type_byte, data@));
    buffer
}

/// The bytes that stand for a point in a payload: its compressed SEC1
/// encoding.
pub fn point_to_bytes(point: CurvePoint) -> (r: Vec<u8>)
    ensures
        r@ == point@,
{
    point.to_sec1()
}

/// The point that `bytes` encode, provided they encode one and it is not the
/// identity.
pub fn bytes_to_point(bytes: &[u8]) -> (r: Result<CurvePoint, CryptoError>)
    ensures
        match r {
            Ok(point) => decode_point(bytes@) == Ok::<Seq<u8>, MessageError>(point@) && point.wf(),
            Err(e) => e == CryptoError::InvalidPoint && decode_point(bytes@) is Err,
        },
{
    match CurvePoint::from_sec1(bytes) {
        Some(point) => {
            if point.is_identity() {
                Err(CryptoError::InvalidPoint)
            } else {
                Ok(point)
            }
        },
        None => Err(CryptoError::InvalidPoint),
    }
}

/// The user name that the payload `bytes` carries.
fn bytes_to_name(bytes: &[u8]) -> (r: Result<Username, MessageError>)
    ensures
        match r {
            Ok(name) => decode_name(bytes@) == Ok::<Seq<char>, MessageError>(name@),
            Err(e) => decode_name(bytes@) == Err::<Seq<char>, MessageError>(e),
        },
{
    match string_from_utf8(slice_to_vec(bytes)) {
        None => Err(MessageError::InvalidUtf8),
        Some(name) => {
            proof {
                decode_utf8_encode_utf8(bytes@);
            }
            match Username::new(name) {
                Ok(username) => Ok(username),
                Err(e) => Err(MessageError::InvalidUsername(e)),
            }
        },
    }
}

impl Message {
    /// The frame of the message.
    ///
    /// A payload longer than 65535 bytes is framed with its length modulo
    /// 65536; no receiver accepts such a frame.
    pub fn into_bytes(self) -> (r: Vec<u8>)
        ensures
            r@ == self@.encode(),
    {
        match self {
            Message::BroadcastGreet(username) => buffer(0, username.as_str().as_bytes()),
            Message::BroadcastResponse(username) => buffer(1, username.as_str().as_bytes()),
            Message::BroadcastBye => {
                let empty: Vec<u8> = Vec::new();
                buffer(2, empty.as_slice())
            },
            Message::Greet(point) => buffer(3, point_to_bytes(point).as_slice()),
            Message::Response(point) => buffer(4, point_to_bytes(point).as_slice()),
            Message::Data(c0, c1) => {
                let mut buf: Vec<u8> = Vec::new();
                let len = length_bytes(c0.len());
                buf.push(len[0]);
                buf.push(len[1]);
                buf.extend_from_slice(c0.as_slice());
                buf.extend_from_slice(c1.as_slice());
                assert(buf@ =~= be16(c0@.len()) + c0@ + c1@);
                buffer(5, buf.as_slice())
            },
        }
    }

    /// Decodes a datagram.
    pub fn try_from(value: &[u8]) -> (r: Result<Message, MessageError>)
        ensures
            match r {
                Ok(message) => decode(value@) == Ok::<MessageView, MessageError>(message@)
                    && message@.wf(),
                Err(e) => decode(value@) == Err::<MessageView, MessageError>(e),
            },
    {
        if value.len() < HEADER_SIZE {
            return Err(MessageError::MissingHeaderBytes);
        }
        if value[0] != 0x4F || value[1] != 0x54 || value[2] != 0x4D || value[3] != 0x50 {
            assert(value@.subrange(0, 4) != magic()) by {
                if value@.subrange(0, 4) == magic() {
                    assert(value@.subrange(0, 4)[0] == magic()[0]);
                    assert(value@.subrange(0, 4)[1] == magic()[1]);
                    assert(value@.subrange(0, 4)[2] == magic()[2]);
                    assert(value@.subrange(0, 4)[3] == magic()[3]);
                }
            }
            return Err(MessageError::InvalidMagicNumber);
        }
        assert(value@.subrange(0, 4) =~= magic());
        let size: usize = value[5] as usize * 256 + value[6] as usize;
        if value.len() - HEADER_SIZE != size {
            return Err(MessageError::InvalidMessageLength);
        }
        let payload = slice_subrange(value, HEADER_SIZE, value.len());
        let type_byte = value[4];
        if type_byte == 0 {
            match bytes_to_name(payload) {
                Ok(name) => {
                    proof {
                        decode_utf8_encode_utf8(payload@);
                    }
                    Ok(Message::BroadcastGreet(name))
                },
                Err(e) => Err(e),
            }
        } else if type_byte == 1 {
            match bytes_to_name(payload) {
                Ok(name) => {
                    proof {
                        decode_utf8_encode_utf8(payload@);
                    }
                    Ok(Message::BroadcastResponse(name))
                },
                Err(e) => Err(e),
            }
        } else if type_byte == 2 {
            if size == 0 {
                Ok(Message::BroadcastBye)
            } else {
                Err(MessageError::InvalidMessageLength)
            }
        } else if type_byte == 3 {
            match bytes_to_point(payload) {
                Ok(point) => Ok(Message::Greet(point)),
                Err(e) => Err(MessageError::InvalidCrypto(e)),
            }
        } else if type_byte == 4 {
            match bytes_to_point(payload) {
                Ok(point) => Ok(Message::Response(point)),
                Err(e) => Err(MessageError::InvalidCrypto(e)),
            }
        } else if type_byte == 5 {
            if size < 2 {
                return Err(MessageError::InvalidMessageLength);
            }
            let len: usize = payload[0] as usize * 256 + payload[1] as usize;
            if len > size - 2 {
                return Err(MessageError::InvalidMessageLength);
            }
            let c0 = slice_to_vec(slice_subrange(payload, 2, 2 + len));
            let c1 = slice_to_vec(slice_subrange(payload, 2 + len, size));
            Ok(Message::Data(c0, c1))
        } else {
            Err(MessageError::InvalidMessageType)
        }
    }
}

/// Decoding the frame of a message gives the message back, for every
/// conforming message: `decode(encode(m)) == m`.
pub proof fn lemma_decode_encode(m: MessageView)
    requires
        m.wf(),
        m.conforming(),
    ensures
        decode(m.encode()) == Ok::<MessageView, MessageError>(m),
{
    let payload = m.payload();
    let bytes = m.encode();
    lemma_payload_len(m);
    lemma_frame_parts(m.type_byte(), payload);
    match m {
        MessageView::BroadcastGreet(name) => {
            encode_utf8_valid_utf8(name);
            encode_utf8_decode_utf8(name);
        },
        MessageView::BroadcastResponse(name) => {
            encode_utf8_valid_utf8(name);
            encode_utf8_decode_utf8(name);
        },
        MessageView::BroadcastBye => {},
        MessageView::Greet(point) => {},
        MessageView::Response(point) => {},
        MessageView::Data(c0, c1) => {
            assert(be16_value(payload[0], payload[1]) == c0.len());
            assert(payload.subrange(2, 2 + c0.len() as int) =~= c0);
            assert(payload.subrange(2 + c0.len() as int, payload.len() as int) =~= c1);
        },
    }
}

/// The payload of a conforming message fits in what two length bytes can
/// announce.
pub proof fn lemma_payload_len(m: MessageView)
    requires
        m.wf(),
        m.conforming(),
    ensures
        m.payload().len() <= MAX_PAYLOAD_LEN,
        m.encode().len() == HEADER_SIZE + m.payload().len(),
{
}

/// The parts of a frame whose payload fits: it starts with the magic, then
/// come the type byte, the payload's length and the payload.
pub proof fn lemma_frame_parts(type_byte: u8, payload: Seq<u8>)
    requires
        payload.len() <= MAX_PAYLOAD_LEN,
    ensures
        frame(type_byte, payload).len() == HEADER_SIZE + payload.len(),
        frame(type_byte, payload).subrange(0, 4) == magic(),
        frame(type_byte, payload)[4] == type_byte,
        be16_value(frame(type_byte, payload)[5], frame(type_byte, payload)[6]) == payload.len(),
        frame(type_byte, payload).subrange(
            HEADER_SIZE as int,
            frame(type_byte, payload).len() as int,
        ) == payload,
{
    let f = frame(type_byte, payload);
    assert(f.subrange(0, 4) =~= magic());
    assert(f.subrange(HEADER_SIZE as int, f.len() as int) =~= payload);
}

} // verus!

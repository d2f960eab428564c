//! The discovery-only form of the protocol: a single message that announces
//! a host by name.
//!
//! The decoder reads the frame of the full codec (magic, type byte, two
//! length bytes, payload) and accepts type 0 only. The encoder writes the
//! short announcement: magic, type byte, one length byte, name.

use crate::message::{be16_value, magic, HEADER_SIZE};
use crate::text::string_from_utf8;
use vstd::prelude::*;
use vstd::slice::*;
use vstd::string::*;
use vstd::utf8::*;

verus! {

/// The largest announced name, in bytes.
pub const MAX_BROADCAST_NAME_LEN: usize = 100;

/// Why bytes are no announcement.
#[derive(Clone, Copy, Debug, PartialEq, Eq, Structural)]
pub enum ProtocolMessageParseError {
    /// There are fewer than four bytes.
    MissingMagicNumber,
    /// The bytes do not start with the magic.
    InvalidMagicNumber,
    /// The type byte is missing.
    MissingMessageType,
    /// The type byte names no message.
    InvalidMessageType,
    /// The two length bytes are missing.
    MissingMessageLength,
    /// The announced length is not that of the payload.
    InvalidMessageLength,
    /// The name is not UTF-8.
    InvalidUtf8,
    /// The name is empty.
    BroadcastNameEmpty,
    /// The name is longer than 100 bytes.
    BroadcastNameTooLong,
}

/// The messages of the discovery-only protocol.
#[derive(Debug, PartialEq, Eq)]
pub enum ProtocolMessage {
    /// Announces a host by name.
    Broadcast(String),
}

/// An announcement as a mathematical value.
pub enum ProtocolMessageView {
    Broadcast(Seq<char>),
}

impl View for ProtocolMessage {
    type V = ProtocolMessageView;

    open spec fn view(&self) -> ProtocolMessageView {
        match self {
            ProtocolMessage::Broadcast(name) => ProtocolMessageView::Broadcast(name@),
        }
    }
}

/// The short announcement of `name`: the magic, the type byte 0, the length
/// of the name modulo 256 in one byte, and the name.
pub open spec fn announcement(name: Seq<char>) -> Seq<u8> {
    magic() + seq![0u8, (encode_utf8(name).len() % 256) as u8] + encode_utf8(name)
}

/// The announcement that a datagram carries, or why it carries none. The
/// checks come in this order: the magic is there and right, the type byte is
/// there, the length bytes are there, the announced length is that of the
/// rest, the type is 0, the name is 1 to 100 bytes long, the name is UTF-8.
pub open spec fn parse(bytes: Seq<u8>) -> Result<ProtocolMessageView, ProtocolMessageParseError> {
    if bytes.len() < 4 {
        Err(ProtocolMessageParseError::MissingMagicNumber)
    } else if bytes.subrange(0, 4) != magic() {
        Err(ProtocolMessageParseError::InvalidMagicNumber)
    } else if bytes.len() < 5 {
        Err(ProtocolMessageParseError::MissingMessageType)
    } else if bytes.len() < HEADER_SIZE {
        Err(ProtocolMessageParseError::MissingMessageLength)
    } else if bytes.len() != HEADER_SIZE + be16_value(bytes[5], bytes[6]) {
        Err(ProtocolMessageParseError::InvalidMessageLength)
    } else if bytes[4] != 0 {
        Err(ProtocolMessageParseError::InvalidMessageType)
    } else if bytes.len() == HEADER_SIZE {
        Err(ProtocolMessageParseError::BroadcastNameEmpty)
    } else if bytes.len() > HEADER_SIZE + MAX_BROADCAST_NAME_LEN {
        Err(ProtocolMessageParseError::BroadcastNameTooLong)
    } else if !valid_utf8(bytes.subrange(HEADER_SIZE as int, bytes.len() as int)) {
        Err(ProtocolMessageParseError::InvalidUtf8)
    } else {
        Ok(
            ProtocolMessageView::Broadcast(
                decode_utf8(bytes.subrange(HEADER_SIZE as int, bytes.len() as int)),
            ),
        )
    }
}

impl ProtocolMessage {
    /// The short announcement of the message.
    pub fn into_bytes(self) -> (r: Vec<u8>)
        ensures
            match self@ {
                ProtocolMessageView::Broadcast(name) => r@ == announcement(name),
            },
    {
        match self {
            ProtocolMessage::Broadcast(message) => {
                let bytes = message.as_str().as_bytes();
                let mut buffer: Vec<u8> = Vec::new();
                buffer.push(0x4F);
                buffer.push(0x54);
                buffer.push(0x4D);
                buffer.push(0x50);
                buffer.push(0);
                buffer.push((bytes.len() % 256) as u8);
                buffer.extend_from_slice(bytes);
                assert(buffer@ =~= announcement(message@));
                buffer
            },
        }
    }

    /// Decodes a datagram.
    pub fn try_from(value: &[u8]) -> (r: Result<ProtocolMessage, ProtocolMessageParseError>)
        ensures
            match r {
                Ok(message) => parse(value@) == Ok::<
                    ProtocolMessageView,
                    ProtocolMessageParseError,
                >(message@),
                Err(e) => parse(value@) == Err::<ProtocolMessageView, ProtocolMessageParseError>(e),
            },
    {
        if value.len() < 4 {
            return Err(ProtocolMessageParseError::MissingMagicNumber);
        }
        if value[0] != 0x4F || value[1] != 0x54 || value[2] != 0x4D || value[3] != 0x50 {
            assert(value@.subrange(0, 4) != magic()) by {
                if value@.subrange(0, 4) == magic() {
                    assert(value@.subrange(0, 4)[0] == magic()[0]);
                    assert(value@.subrange(0, 4)[1] == magic()[1]);
                    assert(value@.subrange(0, 4)[2] == magic()[2]);
                    assert(value@.subrange(0, 4)[3] == magic()[3]);
                }
            }
            return Err(ProtocolMessageParseError::InvalidMagicNumber);
        }
        assert(value@.subrange(0, 4) =~= magic());
        if value.len() < 5 {
            return Err(ProtocolMessageParseError::MissingMessageType);
        }
        if value.len() < HEADER_SIZE {
            return Err(ProtocolMessageParseError::MissingMessageLength);
        }
        let size: usize = value[5] as usize * 256 + value[6] as usize;
        if value.len() - HEADER_SIZE != size {
            return Err(ProtocolMessageParseError::InvalidMessageLength);
        }
        if value[4] != 0 {
            return Err(ProtocolMessageParseError::InvalidMessageType);
        }
        if size == 0 {
            Err(ProtocolMessageParseError::BroadcastNameEmpty)
        } else if size <= MAX_BROADCAST_NAME_LEN {
            let payload = slice_subrange(value, HEADER_SIZE, value.len());
            match string_from_utf8(slice_to_vec(payload)) {
                Some(name) => Ok(ProtocolMessage::Broadcast(name)),
                None => Err(ProtocolMessageParseError::InvalidUtf8),
            }
        } else {
            Err(ProtocolMessageParseError::BroadcastNameTooLong)
        }
    }
}

/// A datagram that announces a host in this protocol is a `BroadcastGreet` of
/// the full codec with the same name, and the other way round.
pub proof fn lemma_parse_agrees_with_codec(bytes: Seq<u8>, name: Seq<char>)
    ensures
        parse(bytes) == Ok::<ProtocolMessageView, ProtocolMessageParseError>(
            ProtocolMessageView::Broadcast(name),
        ) <==> crate::message::decode(bytes) == Ok::<
            crate::message::MessageView,
            crate::message::MessageError,
        >(crate::message::MessageView::BroadcastGreet(name)),
{
}

} // verus!

//! Message framing: the envelope that carries one object tree, or none,
//! as one unit over a byte stream.

use vstd::prelude::*;
use crate::xpc::error::XPCError;
use crate::xpc::flag::XPCFlag;
use crate::xpc::laws::framing::lemma_message_round_trip;
use crate::xpc::layout::object_bytes;
use crate::xpc::model::{encodable, faithful, XPCValue};
use crate::xpc::object::XPCObject;
use crate::xpc::parse::parse_object;
use crate::xpc::wire::{get_u32, get_u64, push_bytes, push_u32, push_u64, u32_at, u32_le, u64_at, u64_le};

verus! {

/// First word of a message.
pub const MESSAGE_MAGIC: u32 = 0x29b0_0b92;

/// Length of the message header: magic, flags, body length, message id.
pub const MESSAGE_HEADER_LEN: usize = 24;

/// A single wire unit.
///
/// `message_id` is filled in by [`XPCMessage::decode`]. Encoding does not
/// look at it: the id that goes on the wire is handed to
/// [`XPCMessage::encode`].
#[derive(Debug)]
pub struct XPCMessage {
    pub flags: u32,
    pub message: Option<XPCObject>,
    pub message_id: Option<u64>,
}

/// What an [`XPCMessage`] stands for.
pub struct MessageValue {
    pub flags: u32,
    pub message: Option<XPCValue>,
    pub message_id: Option<u64>,
}

impl View for XPCMessage {
    type V = MessageValue;

    open spec fn view(&self) -> MessageValue {
        MessageValue {
            flags: self.flags,
            message: match self.message {
                Some(m) => Some(m@),
                None => None,
            },
            message_id: self.message_id,
        }
    }
}

/// A message on the wire: magic, flags, the length of the body, the message
/// id, and the body, which is the encoded object tree. A message without an
/// object has a body of length zero.
pub open spec fn message_bytes(flags: u32, message: Option<XPCValue>, message_id: u64) -> Seq<u8> {
    match message {
        Some(v) => u32_le(MESSAGE_MAGIC) + u32_le(flags) + u64_le(object_bytes(v).len() as u64)
            + u64_le(message_id) + object_bytes(v),
        None => u32_le(MESSAGE_MAGIC) + u32_le(flags) + u64_le(0) + u64_le(message_id),
    }
}

/// The message that a buffer holds. The body is the `body length` bytes
/// after the header; what follows them is not looked at.
pub open spec fn parse_message(data: Seq<u8>) -> Result<MessageValue, XPCError> {
    if data.len() < 24 {
        Err(XPCError::Truncated)
    } else if u32_at(data, 0) != MESSAGE_MAGIC {
        Err(XPCError::BadMagic)
    } else if u64_at(data, 8) + 24 > data.len() {
        Err(XPCError::BodyLength)
    } else if u64_at(data, 8) == 0 {
        Ok(MessageValue { flags: u32_at(data, 4), message: None, message_id: Some(u64_at(data, 16)) })
    } else {
        match parse_object(data.subrange(24, 24 + u64_at(data, 8))) {
            Ok(v) => Ok(
                MessageValue {
                    flags: u32_at(data, 4),
                    message: Some(v),
                    message_id: Some(u64_at(data, 16)),
                },
            ),
            Err(e) => Err(e),
        }
    }
}

impl XPCMessage {
    /// A message with the given parts. Without flags it carries
    /// [`XPCFlag::AlwaysSet`].
    pub fn new(flags: Option<XPCFlag>, message: Option<XPCObject>, message_id: Option<u64>) -> (m:
        XPCMessage)
        ensures
            m.flags == match flags {
                Some(f) => f.bits(),
                None => XPCFlag::AlwaysSet.bits(),
            },
            m.message == message,
            m.message_id == message_id,
    {
        let bits = match flags {
            Some(f) => u32::from(f),
            None => u32::from(XPCFlag::AlwaysSet),
        };
        XPCMessage { flags: bits, message, message_id }
    }

    /// Decodes one message from a complete buffer.
    ///
    /// Returns exactly what [`parse_message`] says of the buffer.
    pub fn decode(data: &[u8]) -> (message: Result<XPCMessage, XPCError>)
        ensures
            match message {
                Ok(m) => {
                    &&& parse_message(data@) == Ok::<MessageValue, XPCError>(m@)
                    &&& m.message_id is Some
                    &&& m@.message matches Some(v) ==> encodable(v) && faithful(v)
                },
                Err(e) => parse_message(data@) == Err::<MessageValue, XPCError>(e),
            },
    {
        if data.len() < MESSAGE_HEADER_LEN {
            return Err(XPCError::Truncated);
        }
        let magic = get_u32(data, 0);
        if magic != MESSAGE_MAGIC {
            return Err(XPCError::BadMagic);
        }
        let flags = get_u32(data, 4);
        let body_len = get_u64(data, 8);
        let message_id = get_u64(data, 16);
        if body_len > (data.len() - MESSAGE_HEADER_LEN) as u64 {
            return Err(XPCError::BodyLength);
        }
        if body_len == 0 {
            return Ok(XPCMessage { flags, message: None, message_id: Some(message_id) });
        }
        let end = MESSAGE_HEADER_LEN + body_len as usize;
        let body = vstd::slice::slice_subrange(data, MESSAGE_HEADER_LEN, end);
        match XPCObject::decode(body) {
            Ok(obj) => Ok(XPCMessage { flags, message: Some(obj), message_id: Some(message_id) }),
            Err(e) => Err(e),
        }
    }

    /// Encodes the message under the id `message_id`. The `message_id`
    /// field of the message itself plays no part.
    ///
    /// Fails only where the object cannot be encoded. Decoding the bytes
    /// gives the flags, the id and the object back, unless the object holds
    /// what decoding never returns: see [`faithful`].
    pub fn encode(self, message_id: u64) -> (bytes: Result<Vec<u8>, XPCError>)
        ensures
            match bytes {
                Ok(b) => {
                    &&& self@.message matches Some(v) ==> encodable(v)
                    &&& b@ == message_bytes(self.flags, self@.message, message_id)
                    &&& (self@.message matches Some(v) ==> faithful(v)) ==> parse_message(b@)
                        == Ok::<MessageValue, XPCError>(
                        MessageValue {
                            flags: self.flags,
                            message: self@.message,
                            message_id: Some(message_id),
                        },
                    )
                },
                Err(e) => {
                    &&& self@.message matches Some(v) && !encodable(v)
                    &&& e == XPCError::NotEncodable
                },
            },
    {
        let mut out: Vec<u8> = Vec::new();
        push_u32(&mut out, MESSAGE_MAGIC);
        push_u32(&mut out, self.flags);
        match self.message {
            Some(message) => {
                let body = match message.encode() {
                    Ok(body) => body,
                    Err(e) => {
                        return Err(e);
                    },
                };
                push_u64(&mut out, body.len() as u64);
                push_u64(&mut out, message_id);
                push_bytes(&mut out, body.as_slice());
                assert(out@ =~= message_bytes(self.flags, self@.message, message_id));
            },
            None => {
                push_u64(&mut out, 0u64);
                push_u64(&mut out, message_id);
                assert(out@ =~= message_bytes(self.flags, self@.message, message_id));
            },
        }
        proof {
            if self@.message matches Some(v) ==> faithful(v) {
                lemma_message_round_trip(self.flags, self@.message, message_id, Seq::empty());
                assert(out@ + Seq::<u8>::empty() =~= out@);
            }
        }
        Ok(out)
    }
}

} // verus!

//! Laws of the message envelope.

use vstd::prelude::*;
use crate::xpc::error::XPCError;
use crate::xpc::laws::fields::{lemma_lies_at_split, lemma_read_u32, lemma_read_u64, lies_at};
use crate::xpc::laws::round_trip::{lemma_round_trip, lemma_value_bytes_len};
use crate::xpc::laws::truncation::{lemma_u32_at_prefix, lemma_u64_at_prefix};
use crate::xpc::layout::object_bytes;
use crate::xpc::message::{message_bytes, parse_message, MessageValue, MESSAGE_MAGIC};
use crate::xpc::parse::parse_object;
use crate::xpc::model::{encodable, faithful, XPCValue};
use crate::xpc::wire::{u32_at, u32_le, u64_at, u64_le};

verus! {

/// The header of a message is twenty-four bytes long, and a message
/// without an object is its header alone.
pub proof fn lemma_message_len(flags: u32, message: Option<XPCValue>, message_id: u64)
    ensures
        message_bytes(flags, message, message_id).len() == match message {
            Some(v) => 24 + object_bytes(v).len(),
            None => 24,
        },
{
}

/// The header of a message, as it is written.
pub open spec fn header_bytes(flags: u32, body_len: u64, message_id: u64) -> Seq<u8> {
    u32_le(MESSAGE_MAGIC) + u32_le(flags) + u64_le(body_len) + u64_le(message_id)
}

/// The fields of the header are read back from where it lies.
proof fn lemma_header_fields(flags: u32, body_len: u64, message_id: u64, buf: Seq<u8>)
    requires
        lies_at(buf, 0, header_bytes(flags, body_len, message_id)),
    ensures
        header_bytes(flags, body_len, message_id).len() == 24,
        buf.len() >= 24,
        u32_at(buf, 0) == MESSAGE_MAGIC,
        u32_at(buf, 4) == flags,
        u64_at(buf, 8) == body_len,
        u64_at(buf, 16) == message_id,
{
    let magic = u32_le(MESSAGE_MAGIC);
    lemma_lies_at_split(buf, 0, magic + u32_le(flags) + u64_le(body_len), u64_le(message_id));
    lemma_lies_at_split(buf, 0, magic + u32_le(flags), u64_le(body_len));
    lemma_lies_at_split(buf, 0, magic, u32_le(flags));
    lemma_read_u32(buf, 0, MESSAGE_MAGIC);
    lemma_read_u32(buf, 4, flags);
    lemma_read_u64(buf, 8, body_len);
    lemma_read_u64(buf, 16, message_id);
}

/// A message without an object is read back.
proof fn lemma_empty_message_round_trip(flags: u32, message_id: u64, rest: Seq<u8>)
    ensures
        parse_message(message_bytes(flags, None, message_id) + rest) == Ok::<
            MessageValue,
            XPCError,
        >(MessageValue { flags, message: None, message_id: Some(message_id) }),
{
    let bytes = header_bytes(flags, 0, message_id);
    let buf = bytes + rest;
    assert(message_bytes(flags, None, message_id) == bytes);
    assert(buf.subrange(0, bytes.len() as int) =~= bytes);
    lemma_header_fields(flags, 0, message_id, buf);
}

/// A message with an object is read back.
proof fn lemma_full_message_round_trip(flags: u32, v: XPCValue, message_id: u64, rest: Seq<u8>)
    requires
        encodable(v),
        faithful(v),
        object_bytes(v).len() <= u64::MAX,
    ensures
        parse_message(message_bytes(flags, Some(v), message_id) + rest) == Ok::<
            MessageValue,
            XPCError,
        >(MessageValue { flags, message: Some(v), message_id: Some(message_id) }),
{
    let body = object_bytes(v);
    let body_len = body.len() as u64;
    let header = header_bytes(flags, body_len, message_id);
    let bytes = header + body;
    let buf = bytes + rest;
    assert(message_bytes(flags, Some(v), message_id) == bytes);
    assert(buf.subrange(0, bytes.len() as int) =~= bytes);
    lemma_lies_at_split(buf, 0, header, body);
    lemma_header_fields(flags, body_len, message_id, buf);
    lemma_value_bytes_len(v);
    assert(body.len() >= 16);
    assert(buf.subrange(24, 24 + body_len) == body);
    lemma_round_trip(v, Seq::empty());
    assert(body + Seq::<u8>::empty() =~= body);
    assert(parse_object(body) == Ok::<XPCValue, XPCError>(v));
}

/// Round trip of a message: decoding what was encoded under `message_id`
/// gives the same flags, that id, and the same object, or none where there
/// was none, whatever follows the message in the buffer.
///
/// The object is one that can be encoded and decoded, and its encoding is
/// short enough for the 64-bit length field.
pub proof fn lemma_message_round_trip(
    flags: u32,
    message: Option<XPCValue>,
    message_id: u64,
    rest: Seq<u8>,
)
    requires
        message matches Some(v) ==> encodable(v) && faithful(v) && object_bytes(v).len()
            <= u64::MAX,
    ensures
        parse_message(message_bytes(flags, message, message_id) + rest) == Ok::<
            MessageValue,
            XPCError,
        >(MessageValue { flags, message, message_id: Some(message_id) }),
{
    match message {
        Some(v) => lemma_full_message_round_trip(flags, v, message_id, rest),
        None => lemma_empty_message_round_trip(flags, message_id, rest),
    }
}

/// Truncation of a message: where a buffer holds a message, every buffer
/// that is cut off before the last byte of its body is refused.
pub proof fn lemma_truncated_message_fails(data: Seq<u8>, k: int)
    requires
        parse_message(data) is Ok,
        0 <= k < 24 + u64_at(data, 8),
    ensures
        parse_message(data.take(k)) is Err,
        24 + u64_at(data, 8) <= data.len(),
{
    let cut = data.take(k);
    assert(cut.is_prefix_of(data)) by {
        assert(cut =~= data.subrange(0, cut.len() as int));
    }
    if k >= 24 {
        lemma_u32_at_prefix(cut, data, 0);
        lemma_u64_at_prefix(cut, data, 8);
    }
}

} // verus!

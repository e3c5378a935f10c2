//! The wire layout of a value, as a function from the model to bytes.
//!
//! Every encoded value opens with the four-byte tag of its kind. All
//! integers are little-endian, and variable-length fields are padded with
//! zero bytes to the next four-byte boundary.

use vstd::prelude::*;
use vstd::utf8::encode_utf8;
use crate::xpc::model::XPCValue;
use crate::xpc::tag::XPCType;
use crate::xpc::wire::{i64_bits, padding, u32_le, u64_le, zeros};

verus! {

/// First word of an encoded object tree.
pub const OBJECT_MAGIC: u32 = 0x4213_3742;

/// Second word of an encoded object tree: the format version.
pub const OBJECT_VERSION: u32 = 0x0000_0005;

/// Length of the header of an encoded object tree.
pub const OBJECT_HEADER_LEN: usize = 8;

/// The byte that stands for `true`. The wire format inverts the usual
/// sense: zero is true.
pub const BOOL_TRUE: u8 = 0;

/// The byte that is written for `false`. Every byte but [`BOOL_TRUE`] is
/// read as false.
pub const BOOL_FALSE: u8 = 1;

/// Length field of a UUID.
pub const UUID_LEN: u32 = 16;

/// The reserved word that precedes the count of an array or dictionary.
/// It is written as zero, and its value is not looked at when read.
pub const RESERVED: u32 = 0;

/// A dictionary key on the wire: its UTF-8 bytes, a NUL, and padding
/// computed from the length with the NUL.
pub open spec fn key_bytes(key: Seq<char>) -> Seq<u8> {
    encode_utf8(key) + seq![0u8] + zeros(padding(encode_utf8(key).len() + 1))
}

/// A value on the wire, without the header of the object tree.
pub open spec fn value_bytes(v: XPCValue) -> Seq<u8>
    decreases v,
{
    match v {
        XPCValue::Bool(b) => u32_le(XPCType::Bool.spec_tag()) + seq![
            if b {
                BOOL_TRUE
            } else {
                BOOL_FALSE
            },
        ] + zeros(3),
        XPCValue::Dictionary(entries) => u32_le(XPCType::Dictionary.spec_tag()) + u32_le(RESERVED)
            + u32_le(entries.len() as u32) + entries_bytes(entries),
        XPCValue::Array(items) => u32_le(XPCType::Array.spec_tag()) + u32_le(RESERVED) + u32_le(
            items.len() as u32,
        ) + items_bytes(items),
        XPCValue::Int64(n) => u32_le(XPCType::Int64.spec_tag()) + u64_le(i64_bits(n)),
        XPCValue::UInt64(n) => u32_le(XPCType::UInt64.spec_tag()) + u64_le(n),
        XPCValue::String(s) => u32_le(XPCType::String.spec_tag()) + u32_le(
            (encode_utf8(s).len() + 1) as u32,
        ) + encode_utf8(s) + seq![0u8] + zeros(padding(encode_utf8(s).len() + 1)),
        XPCValue::Data(d) => u32_le(XPCType::Data.spec_tag()) + u32_le(d.len() as u32) + d + zeros(
            padding(d.len()),
        ),
        XPCValue::Uuid(b) => u32_le(XPCType::Uuid.spec_tag()) + u32_le(UUID_LEN) + b,
    }
}

/// The elements of an array on the wire, one after the other.
pub open spec fn items_bytes(items: Seq<XPCValue>) -> Seq<u8>
    decreases items,
{
    if items.len() == 0 {
        Seq::empty()
    } else {
        items_bytes(items.drop_last()) + value_bytes(items.last())
    }
}

/// The entries of a dictionary on the wire, in their order: each key,
/// then its value.
pub open spec fn entries_bytes(entries: Seq<(Seq<char>, XPCValue)>) -> Seq<u8>
    decreases entries,
{
    if entries.len() == 0 {
        Seq::empty()
    } else {
        entries_bytes(entries.drop_last()) + key_bytes(entries.last().0) + value_bytes(
            entries.last().1,
        )
    }
}

/// A whole object tree on the wire: the magic number, the format version,
/// and the value.
pub open spec fn object_bytes(v: XPCValue) -> Seq<u8> {
    u32_le(OBJECT_MAGIC) + u32_le(OBJECT_VERSION) + value_bytes(v)
}

/// Encoding one more element appends its bytes.
pub proof fn lemma_items_bytes_step(items: Seq<XPCValue>, i: int)
    requires
        0 <= i < items.len(),
    ensures
        items_bytes(items.take(i + 1)) == items_bytes(items.take(i)) + value_bytes(items[i]),
{
    assert(items.take(i + 1).drop_last() =~= items.take(i));
}

/// Encoding one more entry appends its key and its value.
pub proof fn lemma_entries_bytes_step(entries: Seq<(Seq<char>, XPCValue)>, i: int)
    requires
        0 <= i < entries.len(),
    ensures
        entries_bytes(entries.take(i + 1)) == entries_bytes(entries.take(i)) + key_bytes(
            entries[i].0,
        ) + value_bytes(entries[i].1),
{
    assert(entries.take(i + 1).drop_last() =~= entries.take(i));
}

} // verus!

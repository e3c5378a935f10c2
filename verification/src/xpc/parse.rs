//! What decoding returns, as a function from bytes to the model.
//!
//! Reading mirrors the layout field by field. A read that would run past
//! the end of the buffer fails with [`XPCError::Truncated`]; nothing beyond
//! the value that is asked for is looked at.

use vstd::prelude::*;
use vstd::utf8::{decode_utf8, valid_utf8};
use crate::xpc::error::XPCError;
use crate::xpc::layout::{BOOL_TRUE, OBJECT_MAGIC, OBJECT_VERSION};
use crate::xpc::model::{insert_entry, XPCValue};
use crate::xpc::tag::XPCType;
use crate::xpc::wire::{bits_i64, padding, u32_at, u64_at};

verus! {

/// The position of the first NUL byte at or after `pos`, or the length of
/// the buffer where there is none.
pub open spec fn find_nul(buf: Seq<u8>, pos: int) -> int
    decreases buf.len() - pos,
{
    if pos < 0 || pos >= buf.len() {
        buf.len() as int
    } else if buf[pos] == 0u8 {
        pos
    } else {
        find_nul(buf, pos + 1)
    }
}

/// A dictionary key at `pos`: the bytes up to the first NUL, which must be
/// UTF-8, then the padding computed from their length with the NUL.
/// Returns the key and the position after the padding.
pub open spec fn parse_key(buf: Seq<u8>, pos: int) -> Result<(Seq<char>, int), XPCError> {
    let nul = find_nul(buf, pos);
    if nul >= buf.len() {
        Err(XPCError::BadTerminator)
    } else if !valid_utf8(buf.subrange(pos, nul)) {
        Err(XPCError::InvalidUtf8)
    } else if nul + 1 + padding((nul - pos + 1) as nat) > buf.len() {
        Err(XPCError::Truncated)
    } else {
        Ok((decode_utf8(buf.subrange(pos, nul)), nul + 1 + padding((nul - pos + 1) as nat)))
    }
}

/// A string payload of `l` bytes at `pos`: UTF-8 text that holds no NUL,
/// then the one NUL that `l` counts, then the padding computed from `l`.
pub open spec fn parse_text(buf: Seq<u8>, pos: int, l: nat) -> Result<(XPCValue, int), XPCError> {
    if pos + l > buf.len() {
        Err(XPCError::Truncated)
    } else if l == 0 || buf[pos + l - 1] != 0u8 || buf.subrange(pos, pos + l - 1).contains(0u8) {
        Err(XPCError::BadTerminator)
    } else if !valid_utf8(buf.subrange(pos, pos + l - 1)) {
        Err(XPCError::InvalidUtf8)
    } else if pos + l + padding(l) > buf.len() {
        Err(XPCError::Truncated)
    } else {
        Ok((XPCValue::String(decode_utf8(buf.subrange(pos, pos + l - 1))), pos + l + padding(l)))
    }
}

/// A byte blob of `l` bytes at `pos`, then the padding computed from `l`.
pub open spec fn parse_data(buf: Seq<u8>, pos: int, l: nat) -> Result<(XPCValue, int), XPCError> {
    if pos + l + padding(l) > buf.len() {
        Err(XPCError::Truncated)
    } else {
        Ok((XPCValue::Data(buf.subrange(pos, pos + l)), pos + l + padding(l)))
    }
}

/// The value that starts at `pos`, and the position after it.
///
/// The reserved word of an array or dictionary and the length word of a
/// UUID are read and not looked at; of the four bytes of a boolean only
/// the first counts; padding bytes must be there and may hold anything.
pub open spec fn parse_value(buf: Seq<u8>, pos: int) -> Result<(XPCValue, int), XPCError>
    decreases buf.len() - pos, 0nat,
{
    if pos < 0 || pos + 4 > buf.len() {
        Err(XPCError::Truncated)
    } else {
        let body = pos + 4;
        match XPCType::from_tag(u32_at(buf, pos)) {
            None => Err(XPCError::InvalidFormat(u32_at(buf, pos))),
            Some(XPCType::Bool) => if body + 4 > buf.len() {
                Err(XPCError::Truncated)
            } else {
                Ok((XPCValue::Bool(buf[body] == BOOL_TRUE), body + 4))
            },
            Some(XPCType::Int64) => if body + 8 > buf.len() {
                Err(XPCError::Truncated)
            } else {
                Ok((XPCValue::Int64(bits_i64(u64_at(buf, body))), body + 8))
            },
            Some(XPCType::UInt64) => if body + 8 > buf.len() {
                Err(XPCError::Truncated)
            } else {
                Ok((XPCValue::UInt64(u64_at(buf, body)), body + 8))
            },
            Some(XPCType::String) => if body + 4 > buf.len() {
                Err(XPCError::Truncated)
            } else {
                parse_text(buf, body + 4, u32_at(buf, body) as nat)
            },
            Some(XPCType::Data) => if body + 4 > buf.len() {
                Err(XPCError::Truncated)
            } else {
                parse_data(buf, body + 4, u32_at(buf, body) as nat)
            },
            Some(XPCType::Uuid) => if body + 20 > buf.len() {
                Err(XPCError::Truncated)
            } else {
                Ok((XPCValue::Uuid(buf.subrange(body + 4, body + 20)), body + 20))
            },
            Some(XPCType::Array) => if body + 8 > buf.len() {
                Err(XPCError::Truncated)
            } else {
                match parse_items(buf, body + 8, u32_at(buf, body + 4) as nat, Seq::empty()) {
                    Ok((items, end)) => Ok((XPCValue::Array(items), end)),
                    Err(e) => Err(e),
                }
            },
            Some(XPCType::Dictionary) => if body + 8 > buf.len() {
                Err(XPCError::Truncated)
            } else {
                match parse_entries(buf, body + 8, u32_at(buf, body + 4) as nat, Seq::empty()) {
                    Ok((entries, end)) => Ok((XPCValue::Dictionary(entries), end)),
                    Err(e) => Err(e),
                }
            },
        }
    }
}

/// `count` values in a row from `pos`, added to `acc`, and the position
/// after the last.
///
/// Every value takes at least eight bytes
/// ([`lemma_parse_value_advances`](crate::xpc::laws::truncation::lemma_parse_value_advances)):
/// the test that the position moves forward never fails, and is there to
/// show that the definition ends.
pub open spec fn parse_items(buf: Seq<u8>, pos: int, count: nat, acc: Seq<XPCValue>) -> Result<
    (Seq<XPCValue>, int),
    XPCError,
>
    decreases buf.len() - pos, count,
{
    if count == 0 {
        Ok((acc, pos))
    } else {
        match parse_value(buf, pos) {
            Err(e) => Err(e),
            Ok((v, next)) => if pos < next <= buf.len() {
                parse_items(buf, next, (count - 1) as nat, acc.push(v))
            } else {
                Err(XPCError::Truncated)
            },
        }
    }
}

/// `count` entries in a row from `pos`, each a key and its value, inserted
/// into `acc` one after the other, and the position after the last. A key
/// that comes twice keeps its first place and its last value.
pub open spec fn parse_entries(
    buf: Seq<u8>,
    pos: int,
    count: nat,
    acc: Seq<(Seq<char>, XPCValue)>,
) -> Result<(Seq<(Seq<char>, XPCValue)>, int), XPCError>
    decreases buf.len() - pos, count,
{
    if count == 0 {
        Ok((acc, pos))
    } else {
        match parse_key(buf, pos) {
            Err(e) => Err(e),
            Ok((key, at)) => if pos < at <= buf.len() {
                match parse_value(buf, at) {
                    Err(e) => Err(e),
                    Ok((v, next)) => if at < next <= buf.len() {
                        parse_entries(buf, next, (count - 1) as nat, insert_entry(acc, key, v))
                    } else {
                        Err(XPCError::Truncated)
                    },
                }
            } else {
                Err(XPCError::Truncated)
            },
        }
    }
}

/// The object tree that a buffer holds: the eight-byte header, then one
/// value. What follows the value is not looked at.
pub open spec fn parse_object(buf: Seq<u8>) -> Result<XPCValue, XPCError> {
    if buf.len() < 8 {
        Err(XPCError::Truncated)
    } else if u32_at(buf, 0) != OBJECT_MAGIC {
        Err(XPCError::BadMagic)
    } else if u32_at(buf, 4) != OBJECT_VERSION {
        Err(XPCError::BadVersion)
    } else {
        match parse_value(buf, 8) {
            Ok((v, _)) => Ok(v),
            Err(e) => Err(e),
        }
    }
}

/// The first NUL at or after `pos` lies between `pos` and the end of the
/// buffer, and no byte before it is a NUL.
pub proof fn lemma_find_nul(buf: Seq<u8>, pos: int)
    requires
        0 <= pos <= buf.len(),
    ensures
        pos <= find_nul(buf, pos) <= buf.len(),
        find_nul(buf, pos) < buf.len() ==> buf[find_nul(buf, pos)] == 0u8,
        forall|j: int| pos <= j < find_nul(buf, pos) ==> buf[j] != 0u8,
    decreases buf.len() - pos,
{
    if pos < buf.len() && buf[pos] != 0u8 {
        lemma_find_nul(buf, pos + 1);
    }
}

} // verus!

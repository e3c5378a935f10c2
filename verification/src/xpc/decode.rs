//! Decoding bytes from a peer that is not trusted to send well-formed ones.
//!
//! Every read is checked against the end of the buffer first, so that no
//! length or count on the wire can make the decoder read out of bounds.

use vstd::prelude::*;
use vstd::utf8::{decode_utf8, encode_utf8_decode_utf8, encode_utf8_valid_utf8, valid_utf8};
use crate::xpc::dictionary::Dictionary;
use crate::xpc::error::XPCError;
use crate::xpc::layout::{BOOL_TRUE, OBJECT_HEADER_LEN, OBJECT_MAGIC, OBJECT_VERSION};
use crate::xpc::laws::sound::lemma_parsed_object_sound;
use crate::xpc::model::{encodable, faithful, XPCValue};
use crate::xpc::object::{lemma_views_push, uuid_from_bytes, views, XPCObject};
use crate::xpc::parse::{
    find_nul, parse_data, parse_entries, parse_items, parse_key, parse_object, parse_text,
    parse_value,
};
use crate::xpc::tag::XPCType;
use crate::xpc::text::string_from_utf8;
use crate::xpc::wire::{bits_to_i64, contains_nul, copy_range, get_u32, get_u64, padding_of, padding_with_nul};

verus! {

/// The position of the first NUL byte at or after `pos`, or the length of
/// the buffer.
fn scan_nul(buf: &[u8], pos: usize) -> (nul: usize)
    requires
        pos <= buf.len(),
    ensures
        nul == find_nul(buf@, pos as int),
        pos <= nul <= buf.len(),
{
    let mut i: usize = pos;
    while i < buf.len() && buf[i] != 0u8
        invariant
            pos <= i <= buf.len(),
            find_nul(buf@, pos as int) == find_nul(buf@, i as int),
        decreases buf.len() - i,
    {
        i += 1;
    }
    i
}

/// The text whose UTF-8 bytes lie from `start` up to `end`.
fn read_utf8(buf: &[u8], start: usize, end: usize) -> (text: Option<String>)
    requires
        start <= end <= buf.len(),
    ensures
        match text {
            Some(s) => valid_utf8(buf@.subrange(start as int, end as int)) && s@ == decode_utf8(
                buf@.subrange(start as int, end as int),
            ),
            None => !valid_utf8(buf@.subrange(start as int, end as int)),
        },
{
    match string_from_utf8(copy_range(buf, start, end)) {
        Ok(s) => {
            proof {
                encode_utf8_valid_utf8(s@);
                encode_utf8_decode_utf8(s@);
            }
            Some(s)
        },
        Err(_) => None,
    }
}

/// Reads the dictionary key at `pos`.
fn decode_key(buf: &[u8], pos: usize) -> (key: Result<(String, usize), XPCError>)
    requires
        pos <= buf.len(),
    ensures
        match key {
            Ok((k, next)) => parse_key(buf@, pos as int) == Ok::<(Seq<char>, int), XPCError>(
                (k@, next as int),
            ) && pos < next <= buf.len(),
            Err(e) => parse_key(buf@, pos as int) == Err::<(Seq<char>, int), XPCError>(e),
        },
{
    let nul = scan_nul(buf, pos);
    if nul >= buf.len() {
        return Err(XPCError::BadTerminator);
    }
    let text = match read_utf8(buf, pos, nul) {
        Some(s) => s,
        None => {
            return Err(XPCError::InvalidUtf8);
        },
    };
    let pad = padding_with_nul(nul - pos);
    if buf.len() - (nul + 1) < pad {
        return Err(XPCError::Truncated);
    }
    Ok((text, nul + 1 + pad))
}

/// Reads a string payload of `l` bytes at `pos`.
fn decode_text(buf: &[u8], pos: usize, l: u32) -> (text: Result<(XPCObject, usize), XPCError>)
    requires
        pos <= buf.len(),
    ensures
        match text {
            Ok((obj, next)) => parse_text(buf@, pos as int, l as nat) == Ok::<
                (XPCValue, int),
                XPCError,
            >((obj@, next as int)) && pos < next <= buf.len(),
            Err(e) => parse_text(buf@, pos as int, l as nat) == Err::<(XPCValue, int), XPCError>(
                e,
            ),
        },
{
    let l = l as usize;
    if buf.len() - pos < l {
        return Err(XPCError::Truncated);
    }
    if l == 0 || buf[pos + l - 1] != 0u8 {
        return Err(XPCError::BadTerminator);
    }
    let end = pos + l - 1;
    if contains_nul(vstd::slice::slice_subrange(buf, pos, end)) {
        return Err(XPCError::BadTerminator);
    }
    let s = match read_utf8(buf, pos, end) {
        Some(s) => s,
        None => {
            return Err(XPCError::InvalidUtf8);
        },
    };
    let pad = padding_of(l);
    if buf.len() - (pos + l) < pad {
        return Err(XPCError::Truncated);
    }
    Ok((XPCObject::String(s), pos + l + pad))
}

/// Reads a byte blob of `l` bytes at `pos`.
fn decode_data(buf: &[u8], pos: usize, l: u32) -> (data: Result<(XPCObject, usize), XPCError>)
    requires
        pos <= buf.len(),
    ensures
        match data {
            Ok((obj, next)) => parse_data(buf@, pos as int, l as nat) == Ok::<
                (XPCValue, int),
                XPCError,
            >((obj@, next as int)) && pos <= next <= buf.len(),
            Err(e) => parse_data(buf@, pos as int, l as nat) == Err::<(XPCValue, int), XPCError>(
                e,
            ),
        },
{
    let l = l as usize;
    if buf.len() - pos < l {
        return Err(XPCError::Truncated);
    }
    let pad = padding_of(l);
    if buf.len() - (pos + l) < pad {
        return Err(XPCError::Truncated);
    }
    Ok((XPCObject::Data(copy_range(buf, pos, pos + l)), pos + l + pad))
}

/// Reads `count` array elements from `pos`.
fn decode_items(buf: &[u8], pos: usize, count: u32) -> (items: Result<
    (Vec<XPCObject>, usize),
    XPCError,
>)
    requires
        pos <= buf.len(),
    ensures
        match items {
            Ok((v, next)) => parse_items(buf@, pos as int, count as nat, Seq::empty()) == Ok::<
                (Seq<XPCValue>, int),
                XPCError,
            >((views(v@), next as int)) && pos <= next <= buf.len(),
            Err(e) => parse_items(buf@, pos as int, count as nat, Seq::empty()) == Err::<
                (Seq<XPCValue>, int),
                XPCError,
            >(e),
        },
    decreases buf.len() - pos, 1nat,
{
    let mut items: Vec<XPCObject> = Vec::new();
    let mut at: usize = pos;
    let mut done: u32 = 0;
    assert(views(items@) =~= Seq::<XPCValue>::empty());
    while done < count
        invariant
            pos <= at <= buf.len(),
            done <= count,
            parse_items(buf@, pos as int, count as nat, Seq::empty()) == parse_items(
                buf@,
                at as int,
                (count - done) as nat,
                views(items@),
            ),
        decreases count - done,
    {
        match XPCObject::decode_object(buf, at) {
            Err(e) => {
                return Err(e);
            },
            Ok((obj, next)) => {
                proof {
                    lemma_views_push(items@, obj);
                }
                items.push(obj);
                at = next;
                done += 1;
            },
        }
    }
    Ok((items, at))
}

/// Reads `count` dictionary entries from `pos`.
fn decode_entries(buf: &[u8], pos: usize, count: u32) -> (entries: Result<
    (Dictionary, usize),
    XPCError,
>)
    requires
        pos <= buf.len(),
    ensures
        match entries {
            Ok((d, next)) => parse_entries(buf@, pos as int, count as nat, Seq::empty()) == Ok::<
                (Seq<(Seq<char>, XPCValue)>, int),
                XPCError,
            >((d@, next as int)) && pos <= next <= buf.len(),
            Err(e) => parse_entries(buf@, pos as int, count as nat, Seq::empty()) == Err::<
                (Seq<(Seq<char>, XPCValue)>, int),
                XPCError,
            >(e),
        },
    decreases buf.len() - pos, 1nat,
{
    let mut dict = Dictionary::new();
    let mut at: usize = pos;
    let mut done: u32 = 0;
    while done < count
        invariant
            pos <= at <= buf.len(),
            done <= count,
            parse_entries(buf@, pos as int, count as nat, Seq::empty()) == parse_entries(
                buf@,
                at as int,
                (count - done) as nat,
                dict@,
            ),
        decreases count - done,
    {
        let (key, value_at) = match decode_key(buf, at) {
            Err(e) => {
                return Err(e);
            },
            Ok(found) => found,
        };
        match XPCObject::decode_object(buf, value_at) {
            Err(e) => {
                return Err(e);
            },
            Ok((obj, next)) => {
                dict.insert(key, obj);
                at = next;
                done += 1;
            },
        }
    }
    Ok((dict, at))
}

impl XPCObject {
    /// Decodes an object tree: checks the eight-byte header, then reads one
    /// value. Bytes that follow the value are not looked at.
    ///
    /// Returns exactly what [`parse_object`] says of the buffer: the value,
    /// or the first failure that reading runs into. A value that is
    /// returned can be encoded, and decoding its encoding gives it back.
    pub fn decode(buf: &[u8]) -> (object: Result<XPCObject, XPCError>)
        ensures
            match object {
                Ok(obj) => {
                    &&& parse_object(buf@) == Ok::<XPCValue, XPCError>(obj@)
                    &&& encodable(obj@)
                    &&& faithful(obj@)
                },
                Err(e) => parse_object(buf@) == Err::<XPCValue, XPCError>(e),
            },
    {
        if buf.len() < OBJECT_HEADER_LEN {
            return Err(XPCError::Truncated);
        }
        let magic = get_u32(buf, 0);
        if magic != OBJECT_MAGIC {
            return Err(XPCError::BadMagic);
        }
        let version = get_u32(buf, 4);
        if version != OBJECT_VERSION {
            return Err(XPCError::BadVersion);
        }
        match Self::decode_object(buf, OBJECT_HEADER_LEN) {
            Ok((obj, _)) => {
                proof {
                    lemma_parsed_object_sound(buf@);
                }
                Ok(obj)
            },
            Err(e) => Err(e),
        }
    }

    /// Decodes the value that starts at `pos`, and returns it with the
    /// position after it, where the next value of an array or dictionary
    /// starts.
    pub fn decode_object(buf: &[u8], pos: usize) -> (value: Result<(XPCObject, usize), XPCError>)
        ensures
            match value {
                Ok((obj, next)) => parse_value(buf@, pos as int) == Ok::<(XPCValue, int), XPCError>(
                    (obj@, next as int),
                ) && pos + 8 <= next <= buf.len(),
                Err(e) => parse_value(buf@, pos as int) == Err::<(XPCValue, int), XPCError>(e),
            },
        decreases buf.len() - pos, 0nat,
    {
        if buf.len() < 4 || pos > buf.len() - 4 {
            return Err(XPCError::Truncated);
        }
        let tag = get_u32(buf, pos);
        let kind = match XPCType::try_from(tag) {
            Ok(kind) => kind,
            Err(e) => {
                return Err(e);
            },
        };
        let body = pos + 4;
        let left = buf.len() - body;
        match kind {
            XPCType::Dictionary => {
                if left < 8 {
                    return Err(XPCError::Truncated);
                }
                let count = get_u32(buf, body + 4);
                match decode_entries(buf, body + 8, count) {
                    Ok((dict, next)) => Ok((XPCObject::Dictionary(dict), next)),
                    Err(e) => Err(e),
                }
            },
            XPCType::Array => {
                if left < 8 {
                    return Err(XPCError::Truncated);
                }
                let count = get_u32(buf, body + 4);
                match decode_items(buf, body + 8, count) {
                    Ok((items, next)) => Ok((XPCObject::Array(items), next)),
                    Err(e) => Err(e),
                }
            },
            XPCType::Int64 => {
                if left < 8 {
                    return Err(XPCError::Truncated);
                }
                Ok((XPCObject::Int64(bits_to_i64(get_u64(buf, body))), body + 8))
            },
            XPCType::UInt64 => {
                if left < 8 {
                    return Err(XPCError::Truncated);
                }
                Ok((XPCObject::UInt64(get_u64(buf, body)), body + 8))
            },
            XPCType::String => {
                if left < 4 {
                    return Err(XPCError::Truncated);
                }
                let l = get_u32(buf, body);
                decode_text(buf, body + 4, l)
            },
            XPCType::Bool => {
                if left < 4 {
                    return Err(XPCError::Truncated);
                }
                Ok((XPCObject::Bool(buf[body] == BOOL_TRUE), body + 4))
            },
            XPCType::Data => {
                if left < 4 {
                    return Err(XPCError::Truncated);
                }
                let l = get_u32(buf, body);
                decode_data(buf, body + 4, l)
            },
            XPCType::Uuid => {
                if left < 20 {
                    return Err(XPCError::Truncated);
                }
                let at = body + 4;
                let raw: [u8; 16] = [
                    buf[at],
                    buf[at + 1],
                    buf[at + 2],
                    buf[at + 3],
                    buf[at + 4],
                    buf[at + 5],
                    buf[at + 6],
                    buf[at + 7],
                    buf[at + 8],
                    buf[at + 9],
                    buf[at + 10],
                    buf[at + 11],
                    buf[at + 12],
                    buf[at + 13],
                    buf[at + 14],
                    buf[at + 15],
                ];
                let uuid = uuid_from_bytes(raw);
                assert(raw@ =~= buf@.subrange(body + 4, body + 20));
                Ok((XPCObject::Uuid(uuid), body + 20))
            },
        }
    }
}

} // verus!

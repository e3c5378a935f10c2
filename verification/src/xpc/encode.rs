//! Encoding an object tree into the wire format.

use vstd::prelude::*;
use crate::xpc::dictionary::Dictionary;
use crate::xpc::error::XPCError;
use crate::xpc::layout::{
    entries_bytes, items_bytes, key_bytes, object_bytes, value_bytes,
    lemma_entries_bytes_step, lemma_items_bytes_step, BOOL_FALSE, BOOL_TRUE, OBJECT_MAGIC,
    OBJECT_VERSION, RESERVED, UUID_LEN,
};
use crate::xpc::laws::round_trip::lemma_round_trip;
use crate::xpc::model::{encodable, faithful, nul_free, XPCValue};
use crate::xpc::parse::parse_object;
use crate::xpc::object::{uuid_as_bytes, views, XPCObject};
use crate::xpc::tag::XPCType;
use crate::xpc::wire::{
    contains_nul, i64_to_bits, padding, padding_of, padding_with_nul, push_bytes, push_u32,
    push_u64, push_zeros,
};

verus! {

/// Appends a dictionary key: its bytes, a NUL, and the padding. A key that
/// holds a NUL byte is refused.
fn encode_key_bytes(key: &str, buf: &mut Vec<u8>) -> (done: Result<(), XPCError>)
    ensures
        match done {
            Ok(()) => nul_free(key@) && final(buf)@ == old(buf)@ + key_bytes(key@),
            Err(e) => !nul_free(key@) && e == XPCError::NotEncodable,
        },
{
    let raw = key.as_bytes();
    if contains_nul(raw) {
        return Err(XPCError::NotEncodable);
    }
    let pad = padding_with_nul(raw.len());
    push_bytes(buf, raw);
    buf.push(0u8);
    push_zeros(buf, pad);
    assert(buf@ =~= old(buf)@ + key_bytes(key@));
    Ok(())
}

/// Appends a string value.
fn encode_string(text: &str, buf: &mut Vec<u8>) -> (done: Result<(), XPCError>)
    ensures
        match done {
            Ok(()) => encodable(XPCValue::String(text@)) && final(buf)@ == old(buf)@
                + value_bytes(XPCValue::String(text@)),
            Err(e) => !encodable(XPCValue::String(text@)) && e == XPCError::NotEncodable,
        },
{
    let bytes = text.as_bytes();
    if bytes.len() >= u32::MAX as usize {
        return Err(XPCError::NotEncodable);
    }
    let l = bytes.len() + 1;
    let pad = padding_of(l);
    push_u32(buf, XPCType::String.tag());
    push_u32(buf, l as u32);
    push_bytes(buf, bytes);
    buf.push(0u8);
    push_zeros(buf, pad);
    assert(buf@ =~= old(buf)@ + value_bytes(XPCValue::String(text@)));
    Ok(())
}

/// Appends a byte blob.
fn encode_data(data: &[u8], buf: &mut Vec<u8>) -> (done: Result<(), XPCError>)
    ensures
        match done {
            Ok(()) => encodable(XPCValue::Data(data@)) && final(buf)@ == old(buf)@ + value_bytes(
                XPCValue::Data(data@),
            ),
            Err(e) => !encodable(XPCValue::Data(data@)) && e == XPCError::NotEncodable,
        },
{
    let l = data.len();
    if l > u32::MAX as usize {
        return Err(XPCError::NotEncodable);
    }
    let pad = padding_of(l);
    push_u32(buf, XPCType::Data.tag());
    push_u32(buf, l as u32);
    push_bytes(buf, data);
    push_zeros(buf, pad);
    assert(buf@ =~= old(buf)@ + value_bytes(XPCValue::Data(data@)));
    Ok(())
}

/// Appends an array: the reserved word, the count, and the elements.
fn encode_array(items: &Vec<XPCObject>, buf: &mut Vec<u8>) -> (done: Result<(), XPCError>)
    ensures
        match done {
            Ok(()) => encodable(XPCValue::Array(views(items@))) && final(buf)@ == old(buf)@
                + value_bytes(XPCValue::Array(views(items@))),
            Err(e) => !encodable(XPCValue::Array(views(items@))) && e == XPCError::NotEncodable,
        },
    decreases views(items@),
{
    let n = items.len();
    if n > u32::MAX as usize {
        return Err(XPCError::NotEncodable);
    }
    push_u32(buf, XPCType::Array.tag());
    push_u32(buf, RESERVED);
    push_u32(buf, n as u32);
    let ghost values = views(items@);
    let ghost base = buf@;
    let mut i: usize = 0;
    while i < n
        invariant
            i <= n,
            n == items.len(),
            values == views(items@),
            buf@ == base + items_bytes(values.take(i as int)),
            forall|j: int| 0 <= j < i ==> encodable(#[trigger] values[j]),
        decreases n - i,
    {
        proof {
            assert(views(items@)[i as int] == items[i as int]@);
            assert(decreases_to!(views(items@) => views(items@)[i as int]));
        }
        match items[i].encode_object(buf) {
            Ok(()) => {},
            Err(e) => {
                assert(!encodable(values[i as int]));
                return Err(e);
            },
        }
        proof {
            lemma_items_bytes_step(values, i as int);
        }
        i += 1;
    }
    proof {
        assert(values.take(n as int) =~= values);
        assert(buf@ =~= old(buf)@ + value_bytes(XPCValue::Array(values)));
    }
    Ok(())
}

/// Appends a dictionary: the reserved word, the count, and the entries in
/// insertion order.
fn encode_dictionary(dict: &Dictionary, buf: &mut Vec<u8>) -> (done: Result<(), XPCError>)
    ensures
        match done {
            Ok(()) => encodable(XPCValue::Dictionary(dict@)) && final(buf)@ == old(buf)@
                + value_bytes(XPCValue::Dictionary(dict@)),
            Err(e) => !encodable(XPCValue::Dictionary(dict@)) && e == XPCError::NotEncodable,
        },
    decreases dict@,
{
    let n = dict.len();
    if n > u32::MAX as usize {
        return Err(XPCError::NotEncodable);
    }
    push_u32(buf, XPCType::Dictionary.tag());
    push_u32(buf, RESERVED);
    push_u32(buf, n as u32);
    let ghost entries = dict@;
    let ghost base = buf@;
    let mut i: usize = 0;
    while i < n
        invariant
            i <= n,
            n == entries.len(),
            entries == dict@,
            buf@ == base + entries_bytes(entries.take(i as int)),
            forall|j: int|
                0 <= j < i ==> nul_free((#[trigger] entries[j]).0) && encodable(entries[j].1),
        decreases n - i,
    {
        let (k, v) = dict.entry_at(i);
        match encode_key_bytes(k.as_str(), buf) {
            Ok(()) => {},
            Err(e) => {
                assert(!nul_free(entries[i as int].0));
                return Err(e);
            },
        }
        proof {
            assert(decreases_to!(dict@ => dict@[i as int]));
            assert(decreases_to!(dict@[i as int] => dict@[i as int].1));
        }
        match v.encode_object(buf) {
            Ok(()) => {},
            Err(e) => {
                assert(!encodable(entries[i as int].1));
                return Err(e);
            },
        }
        proof {
            lemma_entries_bytes_step(entries, i as int);
            assert(buf@ =~= base + entries_bytes(entries.take(i + 1)));
        }
        i += 1;
    }
    proof {
        assert(entries.take(n as int) =~= entries);
        assert(buf@ =~= old(buf)@ + value_bytes(XPCValue::Dictionary(entries)));
    }
    Ok(())
}

impl XPCObject {
    /// Computes the alignment padding that follows a field of `len` bytes:
    /// the number of bytes up to the next multiple of four.
    pub fn calculate_padding(len: usize) -> (pad: usize)
        ensures
            pad == padding(len as nat),
            0 <= pad < 4,
            (len + pad) % 4 == 0,
    {
        padding_of(len)
    }

    /// Encodes the object tree: the eight-byte header of the object stream,
    /// then the value.
    ///
    /// Succeeds on every tree that the wire format can hold, and on no
    /// other: see [`encodable`]. Decoding the bytes gives the tree back,
    /// unless it holds what decoding never returns: see [`faithful`].
    pub fn encode(&self) -> (bytes: Result<Vec<u8>, XPCError>)
        ensures
            match bytes {
                Ok(b) => {
                    &&& encodable(self@)
                    &&& b@ == object_bytes(self@)
                    &&& faithful(self@) ==> parse_object(b@) == Ok::<XPCValue, XPCError>(self@)
                },
                Err(e) => !encodable(self@) && e == XPCError::NotEncodable,
            },
    {
        let mut buf: Vec<u8> = Vec::new();
        push_u32(&mut buf, OBJECT_MAGIC);
        push_u32(&mut buf, OBJECT_VERSION);
        match self.encode_object(&mut buf) {
            Ok(()) => {
                proof {
                    assert(buf@ =~= object_bytes(self@));
                    if faithful(self@) {
                        lemma_round_trip(self@, Seq::empty());
                        assert(object_bytes(self@) + Seq::<u8>::empty() =~= object_bytes(self@));
                    }
                }
                Ok(buf)
            },
            Err(e) => Err(e),
        }
    }

    /// Appends the encoding of the value, without a header, to `buf`.
    ///
    /// On failure `buf` holds the start of an encoding and is of no use.
    pub fn encode_object(&self, buf: &mut Vec<u8>) -> (done: Result<(), XPCError>)
        ensures
            match done {
                Ok(()) => encodable(self@) && final(buf)@ == old(buf)@ + value_bytes(self@),
                Err(e) => !encodable(self@) && e == XPCError::NotEncodable,
            },
        decreases self@,
    {
        match self {
            XPCObject::Bool(val) => {
                push_u32(buf, XPCType::Bool.tag());
                buf.push(
                    if *val {
                        BOOL_TRUE
                    } else {
                        BOOL_FALSE
                    },
                );
                push_zeros(buf, 3);
                assert(buf@ =~= old(buf)@ + value_bytes(self@));
                Ok(())
            },
            XPCObject::Dictionary(dict) => {
                proof {
                    assert(decreases_to!(self@ => self@->Dictionary_0));
                }
                encode_dictionary(dict, buf)
            },
            XPCObject::Array(items) => {
                proof {
                    assert(decreases_to!(self@ => self@->Array_0));
                }
                encode_array(items, buf)
            },
            XPCObject::Int64(num) => {
                push_u32(buf, XPCType::Int64.tag());
                push_u64(buf, i64_to_bits(*num));
                Ok(())
            },
            XPCObject::UInt64(num) => {
                push_u32(buf, XPCType::UInt64.tag());
                push_u64(buf, *num);
                Ok(())
            },
            XPCObject::String(item) => encode_string(item.as_str(), buf),
            XPCObject::Data(data) => encode_data(data.as_slice(), buf),
            XPCObject::Uuid(uuid) => {
                let raw = uuid_as_bytes(uuid);
                push_u32(buf, XPCType::Uuid.tag());
                push_u32(buf, UUID_LEN);
                push_bytes(buf, raw.as_slice());
                Ok(())
            },
        }
    }
}

} // verus!

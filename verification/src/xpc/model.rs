//! The mathematical model of an object tree, over which every contract of
//! the codec is stated.

use vstd::prelude::*;
use vstd::utf8::encode_utf8;

verus! {

/// What an [`XPCObject`](crate::xpc::object::XPCObject) stands for: a tree of
/// plain values. Strings are sequences of characters, byte blobs and UUIDs
/// sequences of bytes, and a dictionary is the sequence of its entries in
/// insertion order.
pub enum XPCValue {
    Bool(bool),
    Dictionary(Seq<(Seq<char>, XPCValue)>),
    Array(Seq<XPCValue>),
    Int64(i64),
    UInt64(u64),
    String(Seq<char>),
    Data(Seq<u8>),
    Uuid(Seq<u8>),
}

/// Whether some entry has the key `key`.
pub open spec fn has_key(entries: Seq<(Seq<char>, XPCValue)>, key: Seq<char>) -> bool {
    exists|i: int| 0 <= i < entries.len() && (#[trigger] entries[i]).0 == key
}

/// The position of an entry with the key `key`, where there is one.
pub open spec fn key_index(entries: Seq<(Seq<char>, XPCValue)>, key: Seq<char>) -> int {
    choose|i: int| 0 <= i < entries.len() && (#[trigger] entries[i]).0 == key
}

/// No key occurs twice.
pub open spec fn keys_unique(entries: Seq<(Seq<char>, XPCValue)>) -> bool {
    forall|i: int, j: int|
        0 <= i < j < entries.len() ==> (#[trigger] entries[i]).0 != (#[trigger] entries[j]).0
}

/// The entries after `key` has been given the value `value`: an entry with
/// that key keeps its place and takes the new value; a new key goes last.
pub open spec fn insert_entry(
    entries: Seq<(Seq<char>, XPCValue)>,
    key: Seq<char>,
    value: XPCValue,
) -> Seq<(Seq<char>, XPCValue)> {
    if has_key(entries, key) {
        entries.update(key_index(entries, key), (key, value))
    } else {
        entries.push((key, value))
    }
}

/// Inserting keeps unique keys unique, makes the key present, and adds an
/// entry only for a new key.
pub proof fn lemma_insert_entry(
    entries: Seq<(Seq<char>, XPCValue)>,
    key: Seq<char>,
    value: XPCValue,
)
    ensures
        keys_unique(entries) ==> keys_unique(insert_entry(entries, key, value)),
        has_key(insert_entry(entries, key, value), key),
        insert_entry(entries, key, value).len() == if has_key(entries, key) {
            entries.len()
        } else {
            entries.len() + 1
        },
{
    let after = insert_entry(entries, key, value);
    if has_key(entries, key) {
        let k = key_index(entries, key);
        assert(after[k].0 == key);
        if keys_unique(entries) {
            assert forall|i: int, j: int| 0 <= i < j < after.len() implies (#[trigger] after[i]).0
                != (#[trigger] after[j]).0 by {
                assert(entries[i].0 != entries[j].0);
            }
        }
    } else {
        assert(after[entries.len() as int].0 == key);
        if keys_unique(entries) {
            assert forall|i: int, j: int| 0 <= i < j < after.len() implies (#[trigger] after[i]).0
                != (#[trigger] after[j]).0 by {
                if j < entries.len() {
                    assert(entries[i].0 != entries[j].0);
                } else {
                    assert(entries[i].0 != key);
                }
            }
        }
    }
}

/// The UTF-8 bytes of a text hold no NUL byte, so that a NUL can end them.
pub open spec fn nul_free(text: Seq<char>) -> bool {
    !encode_utf8(text).contains(0u8)
}

/// The value can be written in the wire format: every length and count fits
/// its 32-bit field, a UUID has sixteen bytes, and no dictionary key holds a
/// NUL byte.
pub open spec fn encodable(v: XPCValue) -> bool
    decreases v,
{
    match v {
        XPCValue::Bool(_) => true,
        XPCValue::Int64(_) => true,
        XPCValue::UInt64(_) => true,
        XPCValue::String(s) => encode_utf8(s).len() + 1 <= u32::MAX,
        XPCValue::Data(d) => d.len() <= u32::MAX,
        XPCValue::Uuid(b) => b.len() == 16,
        XPCValue::Array(items) => {
            &&& items.len() <= u32::MAX
            &&& forall|i: int| 0 <= i < items.len() ==> encodable(#[trigger] items[i])
        },
        XPCValue::Dictionary(entries) => {
            &&& entries.len() <= u32::MAX
            &&& forall|i: int|
                0 <= i < entries.len() ==> {
                    &&& nul_free((#[trigger] entries[i]).0)
                    &&& encodable(entries[i].1)
                }
        },
    }
}

/// The value is one that decoding can give back: no string holds a NUL
/// byte, and the keys of every dictionary are unique.
pub open spec fn faithful(v: XPCValue) -> bool
    decreases v,
{
    match v {
        XPCValue::String(s) => nul_free(s),
        XPCValue::Array(items) => forall|i: int|
            0 <= i < items.len() ==> faithful(#[trigger] items[i]),
        XPCValue::Dictionary(entries) => {
            &&& keys_unique(entries)
            &&& forall|i: int| 0 <= i < entries.len() ==> faithful((#[trigger] entries[i]).1)
        },
        _ => true,
    }
}

} // verus!

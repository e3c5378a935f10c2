//! What decoding returns is a tree that can be encoded and decoded again.

use vstd::prelude::*;
use vstd::utf8::{decode_utf8, decode_utf8_encode_utf8};
use crate::xpc::model::{
    encodable, faithful, has_key, insert_entry, key_index, keys_unique, lemma_insert_entry,
    nul_free, XPCValue,
};
use crate::xpc::parse::{
    find_nul, lemma_find_nul, parse_entries, parse_items, parse_key, parse_object, parse_value,
};
use crate::xpc::tag::XPCType;
use crate::xpc::wire::u32_at;

verus! {

/// Every value of the sequence can be encoded and decoded.
pub open spec fn items_sound(items: Seq<XPCValue>) -> bool {
    forall|i: int| 0 <= i < items.len() ==> encodable(#[trigger] items[i]) && faithful(items[i])
}

/// No key holds a NUL byte, no key comes twice, and every value can be
/// encoded and decoded.
pub open spec fn entries_sound(entries: Seq<(Seq<char>, XPCValue)>) -> bool {
    &&& keys_unique(entries)
    &&& forall|i: int|
        0 <= i < entries.len() ==> {
            &&& nul_free((#[trigger] entries[i]).0)
            &&& encodable(entries[i].1)
            &&& faithful(entries[i].1)
        }
}

/// Text that was read from bytes without a NUL is text without a NUL, as
/// long as its bytes.
proof fn lemma_text_of_bytes(bytes: Seq<u8>)
    requires
        vstd::utf8::valid_utf8(bytes),
        !bytes.contains(0u8),
    ensures
        nul_free(decode_utf8(bytes)),
        vstd::utf8::encode_utf8(decode_utf8(bytes)).len() == bytes.len(),
{
    decode_utf8_encode_utf8(bytes);
}

/// A key that was read holds no NUL byte.
proof fn lemma_parsed_key_sound(buf: Seq<u8>, pos: int)
    requires
        0 <= pos <= buf.len(),
        parse_key(buf, pos) is Ok,
    ensures
        nul_free(parse_key(buf, pos)->Ok_0.0),
        pos < parse_key(buf, pos)->Ok_0.1 <= buf.len(),
{
    lemma_find_nul(buf, pos);
    let nul = find_nul(buf, pos);
    let bytes = buf.subrange(pos, nul);
    assert(!bytes.contains(0u8)) by {
        if bytes.contains(0u8) {
            let j = choose|j: int| 0 <= j < bytes.len() && bytes[j] == 0u8;
            assert(buf[pos + j] == 0u8);
        }
    }
    lemma_text_of_bytes(bytes);
}

/// Inserting a sound entry into sound entries gives sound entries.
proof fn lemma_insert_sound(entries: Seq<(Seq<char>, XPCValue)>, key: Seq<char>, value: XPCValue)
    requires
        entries_sound(entries),
        nul_free(key),
        encodable(value),
        faithful(value),
    ensures
        entries_sound(insert_entry(entries, key, value)),
{
    lemma_insert_entry(entries, key, value);
    let after = insert_entry(entries, key, value);
    assert forall|i: int| 0 <= i < after.len() implies {
        &&& nul_free((#[trigger] after[i]).0)
        &&& encodable(after[i].1)
        &&& faithful(after[i].1)
    } by {
        if has_key(entries, key) {
            if i != key_index(entries, key) {
                assert(after[i] == entries[i]);
            }
        } else {
            if i < entries.len() {
                assert(after[i] == entries[i]);
            }
        }
    }
}

/// Soundness of decoding: a value that is read from a buffer can be
/// encoded, and decoding its encoding gives it back.
pub proof fn lemma_parsed_value_sound(buf: Seq<u8>, pos: int)
    requires
        parse_value(buf, pos) is Ok,
    ensures
        encodable(parse_value(buf, pos)->Ok_0.0),
        faithful(parse_value(buf, pos)->Ok_0.0),
    decreases buf.len() - pos, 0nat,
{
    let body = pos + 4;
    match XPCType::from_tag(u32_at(buf, pos)) {
        Some(XPCType::String) => {
            let l = u32_at(buf, body) as nat;
            lemma_text_of_bytes(buf.subrange(body + 4, body + 4 + l - 1));
        },
        Some(XPCType::Array) => {
            let count = u32_at(buf, body + 4) as nat;
            lemma_parsed_items_sound(buf, body + 8, count, Seq::empty());
        },
        Some(XPCType::Dictionary) => {
            let count = u32_at(buf, body + 4) as nat;
            lemma_parsed_entries_sound(buf, body + 8, count, Seq::empty());
        },
        _ => {},
    }
}

/// The elements that are read are sound, and they are as many as were
/// asked for.
pub proof fn lemma_parsed_items_sound(buf: Seq<u8>, pos: int, count: nat, acc: Seq<XPCValue>)
    requires
        0 <= pos <= buf.len(),
        parse_items(buf, pos, count, acc) is Ok,
        items_sound(acc),
    ensures
        items_sound(parse_items(buf, pos, count, acc)->Ok_0.0),
        parse_items(buf, pos, count, acc)->Ok_0.0.len() == acc.len() + count,
    decreases buf.len() - pos, count,
{
    if count > 0 {
        lemma_parsed_value_sound(buf, pos);
        let (v, next) = parse_value(buf, pos)->Ok_0;
        lemma_parsed_items_sound(buf, next, (count - 1) as nat, acc.push(v));
    }
}

/// The entries that are read are sound, and they are at most as many as
/// were asked for.
pub proof fn lemma_parsed_entries_sound(
    buf: Seq<u8>,
    pos: int,
    count: nat,
    acc: Seq<(Seq<char>, XPCValue)>,
)
    requires
        0 <= pos <= buf.len(),
        parse_entries(buf, pos, count, acc) is Ok,
        entries_sound(acc),
    ensures
        entries_sound(parse_entries(buf, pos, count, acc)->Ok_0.0),
        parse_entries(buf, pos, count, acc)->Ok_0.0.len() <= acc.len() + count,
    decreases buf.len() - pos, count,
{
    if count > 0 {
        lemma_parsed_key_sound(buf, pos);
        let (key, at) = parse_key(buf, pos)->Ok_0;
        lemma_parsed_value_sound(buf, at);
        let (v, next) = parse_value(buf, at)->Ok_0;
        lemma_insert_sound(acc, key, v);
        lemma_insert_entry(acc, key, v);
        lemma_parsed_entries_sound(buf, next, (count - 1) as nat, insert_entry(acc, key, v));
    }
}

/// Soundness of decoding an object tree: what is decoded can be encoded,
/// and decoding its encoding gives it back.
pub proof fn lemma_parsed_object_sound(buf: Seq<u8>)
    requires
        parse_object(buf) is Ok,
    ensures
        encodable(parse_object(buf)->Ok_0),
        faithful(parse_object(buf)->Ok_0),
{
    lemma_parsed_value_sound(buf, 8);
}

} // verus!

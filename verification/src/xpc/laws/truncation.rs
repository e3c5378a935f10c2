//! A buffer that is cut short is refused.
//!
//! Parsing looks at no byte beyond the value it returns. So a value that is
//! read from the start of a buffer is read from every longer buffer too,
//! and a buffer that ends inside a value cannot give one.

use vstd::prelude::*;
use crate::xpc::laws::round_trip::{lemma_encoding_is_consumed, lemma_round_trip};
use crate::xpc::layout::object_bytes;
use crate::xpc::model::{encodable, faithful, insert_entry, XPCValue};
use crate::xpc::parse::{
    find_nul, lemma_find_nul, parse_data, parse_entries, parse_items, parse_key, parse_object,
    parse_text, parse_value,
};
use crate::xpc::tag::XPCType;
use crate::xpc::wire::{u32_at, u64_at};

verus! {

/// A 32-bit field inside a prefix is the same field of the whole.
pub proof fn lemma_u32_at_prefix(a: Seq<u8>, b: Seq<u8>, pos: int)
    requires
        a.is_prefix_of(b),
        0 <= pos,
        pos + 4 <= a.len(),
    ensures
        u32_at(a, pos) == u32_at(b, pos),
{
    assert(a.subrange(pos, pos + 4) =~= b.subrange(pos, pos + 4));
}

/// A 64-bit field inside a prefix is the same field of the whole.
pub proof fn lemma_u64_at_prefix(a: Seq<u8>, b: Seq<u8>, pos: int)
    requires
        a.is_prefix_of(b),
        0 <= pos,
        pos + 8 <= a.len(),
    ensures
        u64_at(a, pos) == u64_at(b, pos),
{
    assert(a.subrange(pos, pos + 8) =~= b.subrange(pos, pos + 8));
}

/// A NUL that is found inside a prefix is found at the same place in the
/// whole.
pub proof fn lemma_find_nul_prefix(a: Seq<u8>, b: Seq<u8>, pos: int)
    requires
        a.is_prefix_of(b),
        0 <= pos <= a.len(),
        find_nul(a, pos) < a.len(),
    ensures
        find_nul(b, pos) == find_nul(a, pos),
    decreases a.len() - pos,
{
    if pos < a.len() {
        assert(a[pos] == b[pos]);
        if a[pos] != 0u8 {
            lemma_find_nul_prefix(a, b, pos + 1);
        }
    }
}

/// A key that is read from a prefix is read from the whole.
pub proof fn lemma_parse_key_prefix(a: Seq<u8>, b: Seq<u8>, pos: int)
    requires
        a.is_prefix_of(b),
        0 <= pos <= a.len(),
        parse_key(a, pos) is Ok,
    ensures
        parse_key(b, pos) == parse_key(a, pos),
        pos < parse_key(a, pos)->Ok_0.1 <= a.len(),
{
    lemma_find_nul(a, pos);
    lemma_find_nul_prefix(a, b, pos);
    let nul = find_nul(a, pos);
    assert(a.subrange(pos, nul) =~= b.subrange(pos, nul));
}

/// A string payload that is read from a prefix is read from the whole.
pub proof fn lemma_parse_text_prefix(a: Seq<u8>, b: Seq<u8>, pos: int, l: nat)
    requires
        a.is_prefix_of(b),
        0 <= pos <= a.len(),
        parse_text(a, pos, l) is Ok,
    ensures
        parse_text(b, pos, l) == parse_text(a, pos, l),
        pos < parse_text(a, pos, l)->Ok_0.1 <= a.len(),
{
    assert(a[pos + l - 1] == b[pos + l - 1]);
    assert(a.subrange(pos, pos + l - 1) =~= b.subrange(pos, pos + l - 1));
}

/// A byte blob that is read from a prefix is read from the whole.
pub proof fn lemma_parse_data_prefix(a: Seq<u8>, b: Seq<u8>, pos: int, l: nat)
    requires
        a.is_prefix_of(b),
        0 <= pos <= a.len(),
        parse_data(a, pos, l) is Ok,
    ensures
        parse_data(b, pos, l) == parse_data(a, pos, l),
        pos <= parse_data(a, pos, l)->Ok_0.1 <= a.len(),
{
    assert(a.subrange(pos, pos + l) =~= b.subrange(pos, pos + l));
}

/// A value that is read from a prefix of a buffer is read from the whole
/// buffer, and it ends inside the prefix.
pub proof fn lemma_parse_value_prefix(a: Seq<u8>, b: Seq<u8>, pos: int)
    requires
        a.is_prefix_of(b),
        parse_value(a, pos) is Ok,
    ensures
        parse_value(b, pos) == parse_value(a, pos),
        pos + 8 <= parse_value(a, pos)->Ok_0.1 <= a.len(),
    decreases a.len() - pos, 0nat,
{
    let body = pos + 4;
    lemma_u32_at_prefix(a, b, pos);
    match XPCType::from_tag(u32_at(a, pos)) {
        None => {},
        Some(XPCType::Bool) => {
            assert(a[body] == b[body]);
        },
        Some(XPCType::Int64) => {
            lemma_u64_at_prefix(a, b, body);
        },
        Some(XPCType::UInt64) => {
            lemma_u64_at_prefix(a, b, body);
        },
        Some(XPCType::String) => {
            lemma_u32_at_prefix(a, b, body);
            lemma_parse_text_prefix(a, b, body + 4, u32_at(a, body) as nat);
        },
        Some(XPCType::Data) => {
            lemma_u32_at_prefix(a, b, body);
            lemma_parse_data_prefix(a, b, body + 4, u32_at(a, body) as nat);
        },
        Some(XPCType::Uuid) => {
            assert(a.subrange(body + 4, body + 20) =~= b.subrange(body + 4, body + 20));
        },
        Some(XPCType::Array) => {
            lemma_u32_at_prefix(a, b, body + 4);
            lemma_parse_items_prefix(a, b, body + 8, u32_at(a, body + 4) as nat, Seq::empty());
        },
        Some(XPCType::Dictionary) => {
            lemma_u32_at_prefix(a, b, body + 4);
            lemma_parse_entries_prefix(a, b, body + 8, u32_at(a, body + 4) as nat, Seq::empty());
        },
    }
}

/// Array elements that are read from a prefix are read from the whole.
pub proof fn lemma_parse_items_prefix(
    a: Seq<u8>,
    b: Seq<u8>,
    pos: int,
    count: nat,
    acc: Seq<XPCValue>,
)
    requires
        a.is_prefix_of(b),
        0 <= pos <= a.len(),
        parse_items(a, pos, count, acc) is Ok,
    ensures
        parse_items(b, pos, count, acc) == parse_items(a, pos, count, acc),
        pos <= parse_items(a, pos, count, acc)->Ok_0.1 <= a.len(),
    decreases a.len() - pos, count,
{
    if count > 0 {
        lemma_parse_value_prefix(a, b, pos);
        let (v, next) = parse_value(a, pos)->Ok_0;
        lemma_parse_items_prefix(a, b, next, (count - 1) as nat, acc.push(v));
    }
}

/// Dictionary entries that are read from a prefix are read from the whole.
pub proof fn lemma_parse_entries_prefix(
    a: Seq<u8>,
    b: Seq<u8>,
    pos: int,
    count: nat,
    acc: Seq<(Seq<char>, XPCValue)>,
)
    requires
        a.is_prefix_of(b),
        0 <= pos <= a.len(),
        parse_entries(a, pos, count, acc) is Ok,
    ensures
        parse_entries(b, pos, count, acc) == parse_entries(a, pos, count, acc),
        pos <= parse_entries(a, pos, count, acc)->Ok_0.1 <= a.len(),
    decreases a.len() - pos, count,
{
    if count > 0 {
        lemma_parse_key_prefix(a, b, pos);
        let (key, at) = parse_key(a, pos)->Ok_0;
        lemma_parse_value_prefix(a, b, at);
        let (v, next) = parse_value(a, at)->Ok_0;
        lemma_parse_entries_prefix(
            a,
            b,
            next,
            (count - 1) as nat,
            insert_entry(acc, key, v),
        );
    }
}

/// A value ends at least eight bytes after its start, and inside the
/// buffer: reading always moves forward.
pub proof fn lemma_parse_value_advances(buf: Seq<u8>, pos: int)
    requires
        parse_value(buf, pos) is Ok,
    ensures
        pos + 8 <= parse_value(buf, pos)->Ok_0.1 <= buf.len(),
{
    assert(buf.is_prefix_of(buf)) by {
        assert(buf =~= buf.subrange(0, buf.len() as int));
    }
    lemma_parse_value_prefix(buf, buf, pos);
}

/// The number of bytes that the object tree in `buf` needs: its header
/// and its one value.
pub open spec fn required_len(buf: Seq<u8>) -> int
    recommends
        parse_object(buf) is Ok,
{
    parse_value(buf, 8)->Ok_0.1
}

/// Truncation: where a buffer holds an object tree, every buffer that is
/// cut off before the last byte of the tree is refused.
pub proof fn lemma_truncated_object_fails(buf: Seq<u8>, k: int)
    requires
        parse_object(buf) is Ok,
        0 <= k < required_len(buf),
    ensures
        parse_object(buf.take(k)) is Err,
        required_len(buf) <= buf.len(),
{
    lemma_parse_value_advances(buf, 8);
    let cut = buf.take(k);
    assert(cut.is_prefix_of(buf)) by {
        assert(cut =~= buf.subrange(0, cut.len() as int));
    }
    if k >= 8 {
        lemma_u32_at_prefix(cut, buf, 0);
        lemma_u32_at_prefix(cut, buf, 4);
        if parse_value(cut, 8) is Ok {
            lemma_parse_value_prefix(cut, buf, 8);
        }
    }
}

/// Truncation of an encoding: no proper prefix of an encoded object tree
/// decodes. The tree is one that can be encoded and decoded.
pub proof fn lemma_truncated_encoding_fails(v: XPCValue, k: int)
    requires
        encodable(v),
        faithful(v),
        0 <= k < object_bytes(v).len(),
    ensures
        parse_object(object_bytes(v).take(k)) is Err,
{
    let bytes = object_bytes(v);
    lemma_round_trip(v, Seq::empty());
    assert(bytes + Seq::<u8>::empty() =~= bytes);
    lemma_encoding_is_consumed(v);
    lemma_truncated_object_fails(bytes, k);
}

} // verus!

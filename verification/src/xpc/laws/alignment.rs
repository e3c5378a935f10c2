//! Every encoded value ends on a four-byte boundary.

use vstd::prelude::*;
use vstd::utf8::encode_utf8;
use crate::xpc::layout::{entries_bytes, items_bytes, key_bytes, object_bytes, value_bytes};
use crate::xpc::model::{encodable, XPCValue};
use crate::xpc::wire::{lemma_padding_aligns, padding};

verus! {

/// Two whole numbers of words make a whole number of words.
proof fn lemma_sum_aligned(a: nat, b: nat)
    requires
        a % 4 == 0,
        b % 4 == 0,
    ensures
        (a + b) % 4 == 0,
{
}

/// A key takes a whole number of four-byte words.
pub proof fn lemma_key_bytes_aligned(key: Seq<char>)
    ensures
        key_bytes(key).len() % 4 == 0,
{
    let l = encode_utf8(key).len() + 1;
    lemma_padding_aligns(l);
    assert(key_bytes(key).len() == l + padding(l));
}

/// Alignment: the encoding of a value that can be encoded takes a whole
/// number of four-byte words.
pub proof fn lemma_value_bytes_aligned(v: XPCValue)
    requires
        encodable(v),
    ensures
        value_bytes(v).len() % 4 == 0,
    decreases v,
{
    match v {
        XPCValue::String(s) => {
            let l = encode_utf8(s).len() + 1;
            lemma_padding_aligns(l);
            lemma_sum_aligned(8, l + padding(l));
            assert(value_bytes(v).len() == 8 + (l + padding(l)));
        },
        XPCValue::Data(d) => {
            lemma_padding_aligns(d.len());
            lemma_sum_aligned(8, d.len() + padding(d.len()));
            assert(value_bytes(v).len() == 8 + (d.len() + padding(d.len())));
        },
        XPCValue::Array(items) => {
            lemma_items_bytes_aligned(items);
            lemma_sum_aligned(12, items_bytes(items).len());
        },
        XPCValue::Dictionary(entries) => {
            lemma_entries_bytes_aligned(entries);
            lemma_sum_aligned(12, entries_bytes(entries).len());
        },
        _ => {},
    }
}

/// The elements of an array take a whole number of words.
pub proof fn lemma_items_bytes_aligned(items: Seq<XPCValue>)
    requires
        forall|i: int| 0 <= i < items.len() ==> encodable(#[trigger] items[i]),
    ensures
        items_bytes(items).len() % 4 == 0,
    decreases items,
{
    if items.len() > 0 {
        lemma_items_bytes_aligned(items.drop_last());
        lemma_value_bytes_aligned(items.last());
        lemma_sum_aligned(items_bytes(items.drop_last()).len(), value_bytes(items.last()).len());
    }
}

/// The entries of a dictionary take a whole number of words.
pub proof fn lemma_entries_bytes_aligned(entries: Seq<(Seq<char>, XPCValue)>)
    requires
        forall|i: int| 0 <= i < entries.len() ==> encodable((#[trigger] entries[i]).1),
    ensures
        entries_bytes(entries).len() % 4 == 0,
    decreases entries,
{
    if entries.len() > 0 {
        let before = entries_bytes(entries.drop_last()).len();
        let key = key_bytes(entries.last().0).len();
        let value = value_bytes(entries.last().1).len();
        lemma_entries_bytes_aligned(entries.drop_last());
        lemma_key_bytes_aligned(entries.last().0);
        lemma_value_bytes_aligned(entries.last().1);
        lemma_sum_aligned(before, key);
        lemma_sum_aligned(before + key, value);
        assert(entries_bytes(entries).len() == before + key + value);
    }
}

/// An encoded object tree takes a whole number of words.
pub proof fn lemma_object_bytes_aligned(v: XPCValue)
    requires
        encodable(v),
    ensures
        object_bytes(v).len() % 4 == 0,
{
    lemma_value_bytes_aligned(v);
    lemma_sum_aligned(8, value_bytes(v).len());
}

} // verus!

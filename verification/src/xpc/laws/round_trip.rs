//! Decoding undoes encoding.

use vstd::prelude::*;
use vstd::utf8::{encode_utf8, encode_utf8_decode_utf8, encode_utf8_valid_utf8};
use crate::xpc::error::XPCError;
use crate::xpc::laws::fields::{
    lemma_lies_at_index, lemma_lies_at_split, lemma_read_u32, lemma_read_u64, lies_at,
};
use crate::xpc::layout::{
    entries_bytes, items_bytes, key_bytes, object_bytes, value_bytes, BOOL_FALSE, BOOL_TRUE,
    OBJECT_MAGIC, OBJECT_VERSION, RESERVED, UUID_LEN,
};
use crate::xpc::model::{encodable, faithful, has_key, insert_entry, keys_unique, nul_free, XPCValue};
use crate::xpc::parse::{
    find_nul, parse_data, parse_entries, parse_items, parse_key, parse_object, parse_text,
    parse_value,
};
use crate::xpc::tag::XPCType;
use crate::xpc::wire::{i64_bits, lemma_i64_round_trip, padding, u32_le, u64_le, zeros};

verus! {

/// An encoded value is at least eight bytes long.
pub proof fn lemma_value_bytes_len(v: XPCValue)
    ensures
        value_bytes(v).len() >= 8,
{
}

/// The bytes of a non-empty array are those of its first element, then
/// those of the rest.
pub proof fn lemma_items_bytes_front(items: Seq<XPCValue>)
    requires
        items.len() > 0,
    ensures
        items_bytes(items) == value_bytes(items[0]) + items_bytes(items.drop_first()),
    decreases items.len(),
{
    if items.len() == 1 {
        assert(items.drop_last() =~= Seq::<XPCValue>::empty());
        assert(items.drop_first() =~= Seq::<XPCValue>::empty());
        assert(items_bytes(items) =~= value_bytes(items[0]) + items_bytes(items.drop_first()));
    } else {
        lemma_items_bytes_front(items.drop_last());
        assert(items.drop_first().drop_last() =~= items.drop_last().drop_first());
        assert(items_bytes(items) =~= value_bytes(items[0]) + items_bytes(items.drop_first()));
    }
}

/// The bytes of a non-empty dictionary are the first key, the first value,
/// then the bytes of the rest.
pub proof fn lemma_entries_bytes_front(entries: Seq<(Seq<char>, XPCValue)>)
    requires
        entries.len() > 0,
    ensures
        entries_bytes(entries) == key_bytes(entries[0].0) + value_bytes(entries[0].1)
            + entries_bytes(entries.drop_first()),
    decreases entries.len(),
{
    if entries.len() == 1 {
        assert(entries.drop_last() =~= Seq::<(Seq<char>, XPCValue)>::empty());
        assert(entries.drop_first() =~= Seq::<(Seq<char>, XPCValue)>::empty());
        assert(entries_bytes(entries) =~= key_bytes(entries[0].0) + value_bytes(entries[0].1)
            + entries_bytes(entries.drop_first()));
    } else {
        lemma_entries_bytes_front(entries.drop_last());
        assert(entries.drop_first().drop_last() =~= entries.drop_last().drop_first());
        assert(entries_bytes(entries) =~= key_bytes(entries[0].0) + value_bytes(entries[0].1)
            + entries_bytes(entries.drop_first()));
    }
}

/// Where `n` bytes without a NUL are followed by a NUL, the NUL is found
/// right after them.
pub proof fn lemma_find_nul_after(buf: Seq<u8>, pos: int, n: nat)
    requires
        0 <= pos,
        pos + n < buf.len(),
        forall|j: int| pos <= j < pos + n ==> buf[j] != 0u8,
        buf[pos + n] == 0u8,
    ensures
        find_nul(buf, pos) == pos + n,
    decreases n,
{
    if n > 0 {
        lemma_find_nul_after(buf, pos + 1, (n - 1) as nat);
    }
}

/// A boolean that lies in the buffer is read back.
proof fn lemma_parse_bool(buf: Seq<u8>, pos: int, b: bool)
    requires
        lies_at(buf, pos, value_bytes(XPCValue::Bool(b))),
    ensures
        parse_value(buf, pos) == Ok::<(XPCValue, int), XPCError>((XPCValue::Bool(b), pos + 8)),
        value_bytes(XPCValue::Bool(b)).len() == 8,
{
    let tag = u32_le(XPCType::Bool.spec_tag());
    let flag = seq![
        if b {
            BOOL_TRUE
        } else {
            BOOL_FALSE
        },
    ];
    lemma_lies_at_split(buf, pos, tag + flag, zeros(3));
    lemma_lies_at_split(buf, pos, tag, flag);
    lemma_read_u32(buf, pos, XPCType::Bool.spec_tag());
    lemma_lies_at_index(buf, pos + 4, flag, 0);
}

/// A signed integer that lies in the buffer is read back.
proof fn lemma_parse_int64(buf: Seq<u8>, pos: int, n: i64)
    requires
        lies_at(buf, pos, value_bytes(XPCValue::Int64(n))),
    ensures
        parse_value(buf, pos) == Ok::<(XPCValue, int), XPCError>((XPCValue::Int64(n), pos + 12)),
        value_bytes(XPCValue::Int64(n)).len() == 12,
{
    let tag = u32_le(XPCType::Int64.spec_tag());
    lemma_lies_at_split(buf, pos, tag, u64_le(i64_bits(n)));
    lemma_read_u32(buf, pos, XPCType::Int64.spec_tag());
    lemma_read_u64(buf, pos + 4, i64_bits(n));
    lemma_i64_round_trip(n);
}

/// An unsigned integer that lies in the buffer is read back.
proof fn lemma_parse_uint64(buf: Seq<u8>, pos: int, n: u64)
    requires
        lies_at(buf, pos, value_bytes(XPCValue::UInt64(n))),
    ensures
        parse_value(buf, pos) == Ok::<(XPCValue, int), XPCError>((XPCValue::UInt64(n), pos + 12)),
        value_bytes(XPCValue::UInt64(n)).len() == 12,
{
    let tag = u32_le(XPCType::UInt64.spec_tag());
    lemma_lies_at_split(buf, pos, tag, u64_le(n));
    lemma_read_u32(buf, pos, XPCType::UInt64.spec_tag());
    lemma_read_u64(buf, pos + 4, n);
}

/// A string without a NUL that lies in the buffer is read back.
proof fn lemma_parse_string(buf: Seq<u8>, pos: int, s: Seq<char>)
    requires
        lies_at(buf, pos, value_bytes(XPCValue::String(s))),
        encodable(XPCValue::String(s)),
        nul_free(s),
    ensures
        parse_value(buf, pos) == Ok::<(XPCValue, int), XPCError>(
            (XPCValue::String(s), pos + value_bytes(XPCValue::String(s)).len()),
        ),
{
    let tag = u32_le(XPCType::String.spec_tag());
    let text = encode_utf8(s);
    let l = (text.len() + 1) as u32;
    let pad = zeros(padding(text.len() + 1));
    lemma_lies_at_split(buf, pos, tag + u32_le(l) + text + seq![0u8], pad);
    lemma_lies_at_split(buf, pos, tag + u32_le(l) + text, seq![0u8]);
    lemma_lies_at_split(buf, pos, tag + u32_le(l), text);
    lemma_lies_at_split(buf, pos, tag, u32_le(l));
    lemma_read_u32(buf, pos, XPCType::String.spec_tag());
    lemma_read_u32(buf, pos + 4, l);
    lemma_lies_at_index(buf, pos + 8 + text.len(), seq![0u8], 0);
    encode_utf8_valid_utf8(s);
    encode_utf8_decode_utf8(s);
    assert(buf.subrange(pos + 8, pos + 8 + l - 1) == text);
    assert(parse_text(buf, pos + 8, l as nat) == Ok::<(XPCValue, int), XPCError>(
        (XPCValue::String(s), pos + 8 + l + padding(l as nat)),
    ));
}

/// A byte blob that lies in the buffer is read back.
proof fn lemma_parse_blob(buf: Seq<u8>, pos: int, d: Seq<u8>)
    requires
        lies_at(buf, pos, value_bytes(XPCValue::Data(d))),
        encodable(XPCValue::Data(d)),
    ensures
        parse_value(buf, pos) == Ok::<(XPCValue, int), XPCError>(
            (XPCValue::Data(d), pos + value_bytes(XPCValue::Data(d)).len()),
        ),
{
    let tag = u32_le(XPCType::Data.spec_tag());
    let l = d.len() as u32;
    let pad = zeros(padding(d.len()));
    lemma_lies_at_split(buf, pos, tag + u32_le(l) + d, pad);
    lemma_lies_at_split(buf, pos, tag + u32_le(l), d);
    lemma_lies_at_split(buf, pos, tag, u32_le(l));
    lemma_read_u32(buf, pos, XPCType::Data.spec_tag());
    lemma_read_u32(buf, pos + 4, l);
    assert(parse_data(buf, pos + 8, l as nat) == Ok::<(XPCValue, int), XPCError>(
        (XPCValue::Data(d), pos + 8 + l + padding(l as nat)),
    ));
}

/// A UUID that lies in the buffer is read back.
proof fn lemma_parse_uuid(buf: Seq<u8>, pos: int, b: Seq<u8>)
    requires
        lies_at(buf, pos, value_bytes(XPCValue::Uuid(b))),
        b.len() == 16,
    ensures
        parse_value(buf, pos) == Ok::<(XPCValue, int), XPCError>((XPCValue::Uuid(b), pos + 24)),
        value_bytes(XPCValue::Uuid(b)).len() == 24,
{
    let tag = u32_le(XPCType::Uuid.spec_tag());
    lemma_lies_at_split(buf, pos, tag + u32_le(UUID_LEN), b);
    lemma_lies_at_split(buf, pos, tag, u32_le(UUID_LEN));
    lemma_read_u32(buf, pos, XPCType::Uuid.spec_tag());
}

/// A key without a NUL that lies in the buffer is read back.
proof fn lemma_parse_key(buf: Seq<u8>, pos: int, key: Seq<char>)
    requires
        lies_at(buf, pos, key_bytes(key)),
        nul_free(key),
    ensures
        parse_key(buf, pos) == Ok::<(Seq<char>, int), XPCError>((key, pos + key_bytes(key).len())),
        key_bytes(key).len() >= 1,
{
    let text = encode_utf8(key);
    let pad = zeros(padding(text.len() + 1));
    lemma_lies_at_split(buf, pos, text + seq![0u8], pad);
    lemma_lies_at_split(buf, pos, text, seq![0u8]);
    lemma_lies_at_index(buf, pos + text.len(), seq![0u8], 0);
    assert forall|j: int| pos <= j < pos + text.len() implies buf[j] != 0u8 by {
        lemma_lies_at_index(buf, pos, text, j - pos);
        assert(text.contains(text[j - pos]));
    }
    lemma_find_nul_after(buf, pos, text.len());
    encode_utf8_valid_utf8(key);
    encode_utf8_decode_utf8(key);
}

/// A value that can be encoded and decoded lies in a buffer: parsing at
/// its place gives the value and the position after its last byte.
pub proof fn lemma_parse_value_bytes(buf: Seq<u8>, pos: int, v: XPCValue)
    requires
        lies_at(buf, pos, value_bytes(v)),
        encodable(v),
        faithful(v),
    ensures
        parse_value(buf, pos) == Ok::<(XPCValue, int), XPCError>(
            (v, pos + value_bytes(v).len()),
        ),
    decreases v,
{
    match v {
        XPCValue::Bool(b) => lemma_parse_bool(buf, pos, b),
        XPCValue::Int64(n) => lemma_parse_int64(buf, pos, n),
        XPCValue::UInt64(n) => lemma_parse_uint64(buf, pos, n),
        XPCValue::String(s) => lemma_parse_string(buf, pos, s),
        XPCValue::Data(d) => lemma_parse_blob(buf, pos, d),
        XPCValue::Uuid(b) => lemma_parse_uuid(buf, pos, b),
        XPCValue::Array(items) => {
            let tag = u32_le(XPCType::Array.spec_tag());
            let count = items.len() as u32;
            lemma_lies_at_split(buf, pos, tag + u32_le(RESERVED) + u32_le(count), items_bytes(items));
            lemma_lies_at_split(buf, pos, tag + u32_le(RESERVED), u32_le(count));
            lemma_lies_at_split(buf, pos, tag, u32_le(RESERVED));
            lemma_read_u32(buf, pos, XPCType::Array.spec_tag());
            lemma_read_u32(buf, pos + 8, count);
            lemma_parse_items_bytes(buf, pos + 12, items, Seq::empty());
            assert(Seq::<XPCValue>::empty() + items =~= items);
        },
        XPCValue::Dictionary(entries) => {
            let tag = u32_le(XPCType::Dictionary.spec_tag());
            let count = entries.len() as u32;
            lemma_lies_at_split(
                buf,
                pos,
                tag + u32_le(RESERVED) + u32_le(count),
                entries_bytes(entries),
            );
            lemma_lies_at_split(buf, pos, tag + u32_le(RESERVED), u32_le(count));
            lemma_lies_at_split(buf, pos, tag, u32_le(RESERVED));
            lemma_read_u32(buf, pos, XPCType::Dictionary.spec_tag());
            lemma_read_u32(buf, pos + 8, count);
            assert(Seq::<(Seq<char>, XPCValue)>::empty() + entries =~= entries);
            lemma_parse_entries_bytes(buf, pos + 12, entries, Seq::empty());
        },
    }
}

/// The elements of an array lie in a buffer: parsing as many values as
/// there are elements adds them to what was read before.
pub proof fn lemma_parse_items_bytes(
    buf: Seq<u8>,
    pos: int,
    items: Seq<XPCValue>,
    acc: Seq<XPCValue>,
)
    requires
        lies_at(buf, pos, items_bytes(items)),
        forall|i: int| 0 <= i < items.len() ==> encodable(#[trigger] items[i]) && faithful(items[i]),
    ensures
        parse_items(buf, pos, items.len(), acc) == Ok::<(Seq<XPCValue>, int), XPCError>(
            (acc + items, pos + items_bytes(items).len()),
        ),
    decreases items,
{
    if items.len() == 0 {
        assert(acc + items =~= acc);
    } else {
        let first = items[0];
        let rest = items.drop_first();
        lemma_items_bytes_front(items);
        lemma_lies_at_split(buf, pos, value_bytes(first), items_bytes(rest));
        lemma_parse_value_bytes(buf, pos, first);
        lemma_value_bytes_len(first);
        assert forall|i: int| 0 <= i < rest.len() implies encodable(#[trigger] rest[i])
            && faithful(rest[i]) by {
            assert(rest[i] == items[i + 1]);
        }
        lemma_parse_items_bytes(buf, pos + value_bytes(first).len(), rest, acc.push(first));
        assert(acc.push(first) + rest =~= acc + items);
    }
}

/// The entries of a dictionary lie in a buffer: parsing as many entries as
/// there are adds them, in their order, to what was read before, as long
/// as no key comes twice.
pub proof fn lemma_parse_entries_bytes(
    buf: Seq<u8>,
    pos: int,
    entries: Seq<(Seq<char>, XPCValue)>,
    acc: Seq<(Seq<char>, XPCValue)>,
)
    requires
        lies_at(buf, pos, entries_bytes(entries)),
        keys_unique(acc + entries),
        forall|i: int|
            0 <= i < entries.len() ==> {
                &&& nul_free((#[trigger] entries[i]).0)
                &&& encodable(entries[i].1)
                &&& faithful(entries[i].1)
            },
    ensures
        parse_entries(buf, pos, entries.len(), acc) == Ok::<
            (Seq<(Seq<char>, XPCValue)>, int),
            XPCError,
        >((acc + entries, pos + entries_bytes(entries).len())),
    decreases entries,
{
    if entries.len() == 0 {
        assert(acc + entries =~= acc);
    } else {
        let key = entries[0].0;
        let value = entries[0].1;
        let rest = entries.drop_first();
        let all = acc + entries;
        lemma_entries_bytes_front(entries);
        lemma_lies_at_split(buf, pos, key_bytes(key) + value_bytes(value), entries_bytes(rest));
        lemma_lies_at_split(buf, pos, key_bytes(key), value_bytes(value));
        lemma_parse_key(buf, pos, key);
        lemma_parse_value_bytes(buf, pos + key_bytes(key).len(), value);
        lemma_value_bytes_len(value);
        assert(!has_key(acc, key)) by {
            assert(all[acc.len() as int] == entries[0]);
            assert forall|i: int| 0 <= i < acc.len() implies (#[trigger] acc[i]).0 != key by {
                assert(all[i] == acc[i]);
            }
        }
        assert(insert_entry(acc, key, value) == acc.push(entries[0]));
        assert(acc.push(entries[0]) + rest =~= all);
        assert forall|i: int| 0 <= i < rest.len() implies {
            &&& nul_free((#[trigger] rest[i]).0)
            &&& encodable(rest[i].1)
            &&& faithful(rest[i].1)
        } by {
            assert(rest[i] == entries[i + 1]);
        }
        lemma_parse_entries_bytes(
            buf,
            pos + key_bytes(key).len() + value_bytes(value).len(),
            rest,
            acc.push(entries[0]),
        );
    }
}

/// Round trip: decoding the encoding of an object tree gives the tree
/// back, whatever follows the encoding in the buffer.
///
/// It holds of every tree that the format can hold ([`encodable`]) and
/// that decoding can return ([`faithful`]): a string with a NUL inside is
/// encoded, and then refused when read.
pub proof fn lemma_round_trip(v: XPCValue, rest: Seq<u8>)
    requires
        encodable(v),
        faithful(v),
    ensures
        parse_object(object_bytes(v) + rest) == Ok::<XPCValue, XPCError>(v),
{
    let buf = object_bytes(v) + rest;
    let header = u32_le(OBJECT_MAGIC) + u32_le(OBJECT_VERSION);
    assert(buf.subrange(0, object_bytes(v).len() as int) =~= object_bytes(v));
    assert(lies_at(buf, 0, object_bytes(v)));
    lemma_lies_at_split(buf, 0, header, value_bytes(v));
    lemma_lies_at_split(buf, 0, u32_le(OBJECT_MAGIC), u32_le(OBJECT_VERSION));
    lemma_read_u32(buf, 0, OBJECT_MAGIC);
    lemma_read_u32(buf, 4, OBJECT_VERSION);
    lemma_parse_value_bytes(buf, 8, v);
}

/// Reading an encoded object tree uses all of its bytes.
pub proof fn lemma_encoding_is_consumed(v: XPCValue)
    requires
        encodable(v),
        faithful(v),
    ensures
        parse_value(object_bytes(v), 8) == Ok::<(XPCValue, int), XPCError>(
            (v, object_bytes(v).len() as int),
        ),
{
    let buf = object_bytes(v);
    let header = u32_le(OBJECT_MAGIC) + u32_le(OBJECT_VERSION);
    assert(buf.subrange(0, buf.len() as int) =~= buf);
    lemma_lies_at_split(buf, 0, header, value_bytes(v));
    lemma_parse_value_bytes(buf, 8, v);
}

} // verus!

//! Bytes at a position of a buffer, and the fields read from them.

use vstd::prelude::*;
use crate::xpc::wire::{
    lemma_u32_round_trip, lemma_u64_round_trip, u32_at, u32_le, u64_at, u64_le,
};

verus! {

/// `bytes` are what `buf` holds from `pos` on.
pub open spec fn lies_at(buf: Seq<u8>, pos: int, bytes: Seq<u8>) -> bool {
    &&& 0 <= pos
    &&& pos + bytes.len() <= buf.len()
    &&& buf.subrange(pos, pos + bytes.len()) == bytes
}

/// Where two byte strings lie one after the other, each lies at its place.
pub proof fn lemma_lies_at_split(buf: Seq<u8>, pos: int, a: Seq<u8>, b: Seq<u8>)
    requires
        lies_at(buf, pos, a + b),
    ensures
        lies_at(buf, pos, a),
        lies_at(buf, pos + a.len(), b),
{
    let whole = buf.subrange(pos, pos + (a + b).len());
    assert(buf.subrange(pos, pos + a.len()) =~= a) by {
        assert forall|i: int| 0 <= i < a.len() implies buf.subrange(pos, pos + a.len())[i]
            == a[i] by {
            assert(whole[i] == (a + b)[i]);
        }
    }
    assert(buf.subrange(pos + a.len(), pos + a.len() + b.len()) =~= b) by {
        assert forall|i: int| 0 <= i < b.len() implies buf.subrange(
            pos + a.len(),
            pos + a.len() + b.len(),
        )[i] == b[i] by {
            assert(whole[a.len() + i] == (a + b)[a.len() + i]);
        }
    }
}

/// The byte at a place inside bytes that lie in the buffer.
pub proof fn lemma_lies_at_index(buf: Seq<u8>, pos: int, bytes: Seq<u8>, i: int)
    requires
        lies_at(buf, pos, bytes),
        0 <= i < bytes.len(),
    ensures
        buf[pos + i] == bytes[i],
{
    assert(buf.subrange(pos, pos + bytes.len())[i] == bytes[i]);
}

/// A 32-bit integer that was written is read back.
pub proof fn lemma_read_u32(buf: Seq<u8>, pos: int, x: u32)
    requires
        lies_at(buf, pos, u32_le(x)),
    ensures
        u32_at(buf, pos) == x,
{
    lemma_u32_round_trip(x);
}

/// A 64-bit integer that was written is read back.
pub proof fn lemma_read_u64(buf: Seq<u8>, pos: int, x: u64)
    requires
        lies_at(buf, pos, u64_le(x)),
    ensures
        u64_at(buf, pos) == x,
{
    lemma_u64_round_trip(x);
}

} // verus!

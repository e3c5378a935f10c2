//! Fixed-width fields of the wire format: little-endian integers and the
//! zero padding that aligns variable-length fields to four bytes.

use vstd::prelude::*;

verus! {

/// Number of padding bytes after a field of `n` bytes:
/// `ceil(n / 4) * 4 - n`.
pub open spec fn padding(n: nat) -> nat {
    (((n + 3) / 4) * 4 - n) as nat
}

/// A padded field ends on a four-byte boundary, and padding is at most
/// three bytes long.
pub proof fn lemma_padding_aligns(n: nat)
    ensures
        (n + padding(n)) % 4 == 0,
        0 <= padding(n) < 4,
        padding(n) == (4 - n % 4) % 4,
{
    let q = n / 4;
    let r = n % 4;
    assert(n == 4 * q + r);
    if r == 0 {
        assert((n + 3) / 4 == q);
    } else {
        assert((n + 3) / 4 == q + 1);
    }
}

/// `n` zero bytes.
pub open spec fn zeros(n: nat) -> Seq<u8> {
    Seq::new(n, |i: int| 0u8)
}

/// The four bytes of `x`, least significant first.
pub open spec fn u32_le(x: u32) -> Seq<u8> {
    seq![
        (x % 0x100) as u8,
        (x / 0x100 % 0x100) as u8,
        (x / 0x1_0000 % 0x100) as u8,
        (x / 0x100_0000) as u8,
    ]
}

/// The eight bytes of `x`, least significant first.
pub open spec fn u64_le(x: u64) -> Seq<u8> {
    u32_le((x % 0x1_0000_0000) as u32) + u32_le((x / 0x1_0000_0000) as u32)
}

/// The integer whose little-endian bytes are the first four of `b`.
pub open spec fn le_u32(b: Seq<u8>) -> u32
    recommends
        b.len() >= 4,
{
    (b[0] + b[1] * 0x100 + b[2] * 0x1_0000 + b[3] * 0x100_0000) as u32
}

/// The integer whose little-endian bytes are the first eight of `b`.
pub open spec fn le_u64(b: Seq<u8>) -> u64
    recommends
        b.len() >= 8,
{
    (le_u32(b.subrange(0, 4)) + le_u32(b.subrange(4, 8)) * 0x1_0000_0000) as u64
}

/// The 32-bit field that starts at `pos`.
pub open spec fn u32_at(buf: Seq<u8>, pos: int) -> u32
    recommends
        0 <= pos,
        pos + 4 <= buf.len(),
{
    le_u32(buf.subrange(pos, pos + 4))
}

/// The 64-bit field that starts at `pos`.
pub open spec fn u64_at(buf: Seq<u8>, pos: int) -> u64
    recommends
        0 <= pos,
        pos + 8 <= buf.len(),
{
    le_u64(buf.subrange(pos, pos + 8))
}

/// The two's-complement bit pattern of `n`.
pub open spec fn i64_bits(n: i64) -> u64 {
    if n >= 0 {
        n as u64
    } else {
        (n + 0x1_0000_0000_0000_0000) as u64
    }
}

/// The signed value of the two's-complement bit pattern `x`.
pub open spec fn bits_i64(x: u64) -> i64 {
    if x < 0x8000_0000_0000_0000 {
        x as i64
    } else {
        (x - 0x1_0000_0000_0000_0000) as i64
    }
}

/// Reading back what was written gives the same 32-bit integer.
pub proof fn lemma_u32_round_trip(x: u32)
    ensures
        u32_le(x).len() == 4,
        le_u32(u32_le(x)) == x,
{
    let q1 = x / 0x100;
    let q2 = q1 / 0x100;
    let q3 = q2 / 0x100;
    assert(x == q1 * 0x100 + x % 0x100);
    assert(q1 == q2 * 0x100 + q1 % 0x100);
    assert(q2 == q3 * 0x100 + q2 % 0x100);
    assert(q2 == x / 0x1_0000);
    assert(q3 == x / 0x100_0000);
}

/// Reading back what was written gives the same 64-bit integer.
pub proof fn lemma_u64_round_trip(x: u64)
    ensures
        u64_le(x).len() == 8,
        le_u64(u64_le(x)) == x,
{
    let lo = (x % 0x1_0000_0000) as u32;
    let hi = (x / 0x1_0000_0000) as u32;
    assert(u64_le(x).subrange(0, 4) =~= u32_le(lo));
    assert(u64_le(x).subrange(4, 8) =~= u32_le(hi));
    lemma_u32_round_trip(lo);
    lemma_u32_round_trip(hi);
}

/// Signed integers survive the passage through their bit pattern.
pub proof fn lemma_i64_round_trip(n: i64)
    ensures
        bits_i64(i64_bits(n)) == n,
{
}

/// Computes the alignment padding that follows a field of `len` bytes.
pub fn padding_of(len: usize) -> (pad: usize)
    ensures
        pad == padding(len as nat),
        0 <= pad < 4,
        (len + pad) % 4 == 0,
{
    proof {
        lemma_padding_aligns(len as nat);
    }
    (4 - len % 4) % 4
}

/// Computes the padding that follows a field of `len` bytes and its NUL
/// terminator.
pub fn padding_with_nul(len: usize) -> (pad: usize)
    ensures
        pad == padding(len as nat + 1),
        0 <= pad < 4,
{
    proof {
        lemma_padding_aligns(len as nat + 1);
        let r = len % 4;
        if r == 3 {
            assert((len + 1) % 4 == 0);
        } else {
            assert((len + 1) % 4 == r + 1);
        }
    }
    (7 - len % 4) % 4
}

/// Appends the little-endian bytes of `x`.
pub fn push_u32(buf: &mut Vec<u8>, x: u32)
    ensures
        final(buf)@ == old(buf)@ + u32_le(x),
{
    buf.push((x % 0x100) as u8);
    buf.push((x / 0x100 % 0x100) as u8);
    buf.push((x / 0x1_0000 % 0x100) as u8);
    buf.push((x / 0x100_0000) as u8);
    assert(buf@ =~= old(buf)@ + u32_le(x));
}

/// Appends the little-endian bytes of `x`.
pub fn push_u64(buf: &mut Vec<u8>, x: u64)
    ensures
        final(buf)@ == old(buf)@ + u64_le(x),
{
    push_u32(buf, (x % 0x1_0000_0000) as u32);
    push_u32(buf, (x / 0x1_0000_0000) as u32);
    assert(buf@ =~= old(buf)@ + u64_le(x));
}

/// Appends `n` zero bytes.
pub fn push_zeros(buf: &mut Vec<u8>, n: usize)
    ensures
        final(buf)@ == old(buf)@ + zeros(n as nat),
{
    let mut i: usize = 0;
    while i < n
        invariant
            i <= n,
            buf@ == old(buf)@ + zeros(i as nat),
        decreases n - i,
    {
        buf.push(0u8);
        i += 1;
        assert(buf@ =~= old(buf)@ + zeros(i as nat));
    }
}

/// Appends a copy of `bytes`.
pub fn push_bytes(buf: &mut Vec<u8>, bytes: &[u8])
    ensures
        final(buf)@ == old(buf)@ + bytes@,
{
    buf.extend_from_slice(bytes);
    assert(buf@ =~= old(buf)@ + bytes@);
}

/// Reads the 32-bit field at `pos`; the caller has checked that it fits.
pub(crate) fn get_u32(buf: &[u8], pos: usize) -> (x: u32)
    requires
        pos + 4 <= buf.len(),
    ensures
        x == u32_at(buf@, pos as int),
{
    let b0: u32 = buf[pos] as u32;
    let b1: u32 = buf[pos + 1] as u32;
    let b2: u32 = buf[pos + 2] as u32;
    let b3: u32 = buf[pos + 3] as u32;
    b0 + b1 * 0x100 + b2 * 0x1_0000 + b3 * 0x100_0000
}

/// Reads the 64-bit field at `pos`; the caller has checked that it fits.
pub(crate) fn get_u64(buf: &[u8], pos: usize) -> (x: u64)
    requires
        pos + 8 <= buf.len(),
    ensures
        x == u64_at(buf@, pos as int),
{
    let lo: u64 = get_u32(buf, pos) as u64;
    let hi: u64 = get_u32(buf, pos + 4) as u64;
    proof {
        let b = buf@.subrange(pos as int, pos + 8);
        assert(b.subrange(0, 4) =~= buf@.subrange(pos as int, pos + 4));
        assert(b.subrange(4, 8) =~= buf@.subrange(pos + 4, pos + 8));
    }
    lo + hi * 0x1_0000_0000
}

/// The two's-complement bit pattern of `n`, by arithmetic alone.
pub fn i64_to_bits(n: i64) -> (x: u64)
    ensures
        x == i64_bits(n),
{
    if n >= 0 {
        n as u64
    } else {
        ((n - i64::MIN) as u64) + 0x8000_0000_0000_0000u64
    }
}

/// The signed value of the bit pattern `x`, by arithmetic alone.
pub fn bits_to_i64(x: u64) -> (n: i64)
    ensures
        n == bits_i64(x),
{
    if x < 0x8000_0000_0000_0000u64 {
        x as i64
    } else {
        ((x - 0x8000_0000_0000_0000u64) as i64) + i64::MIN
    }
}

/// Whether some byte of `bytes` is zero.
pub fn contains_nul(bytes: &[u8]) -> (found: bool)
    ensures
        found == bytes@.contains(0u8),
{
    let mut i: usize = 0;
    while i < bytes.len()
        invariant
            i <= bytes.len(),
            forall|j: int| 0 <= j < i ==> bytes@[j] != 0u8,
        decreases bytes.len() - i,
    {
        if bytes[i] == 0u8 {
            return true;
        }
        i += 1;
    }
    false
}

/// A copy of the bytes from `start` up to `end`.
pub(crate) fn copy_range(buf: &[u8], start: usize, end: usize) -> (bytes: Vec<u8>)
    requires
        start <= end <= buf.len(),
    ensures
        bytes@ == buf@.subrange(start as int, end as int),
{
    vstd::slice::slice_to_vec(vstd::slice::slice_subrange(buf, start, end))
}

} // verus!

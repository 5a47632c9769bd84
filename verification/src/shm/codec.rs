//! Little-endian encoding of the integers stored in shared memory, and the
//! CRC32 checksum of payloads.

use vstd::prelude::*;

verus! {

/// The CRC-32 (IEEE) checksum of `data`, as `crc32fast::hash` computes it.
pub uninterp spec fn crc32(data: Seq<u8>) -> u32;

/// Calls `crc32fast::hash`, whose result depends on the bytes alone.
#[verifier::external_body]
pub(crate) fn crc32_hash(data: &[u8]) -> (r: u32)
    ensures
        r == crc32(data@),
{
    crc32fast::hash(data)
}

/// The little-endian value of four bytes.
pub open spec fn le_u32(b0: u8, b1: u8, b2: u8, b3: u8) -> u32 {
    (b0 as u32) | ((b1 as u32) << 8u32) | ((b2 as u32) << 16u32) | ((b3 as u32) << 24u32)
}

/// Byte `i` (0 is least significant) of `x`.
pub open spec fn byte_of_u32(x: u32, i: u32) -> u8 {
    ((x >> (8 * i)) & 0xffu32) as u8
}

/// The little-endian value of the eight bytes of `s` starting at `off`.
pub open spec fn le_u64_at(s: Seq<u8>, off: int) -> u64 {
    (s[off] as u64) | ((s[off + 1] as u64) << 8u64) | ((s[off + 2] as u64) << 16u64) | ((
    s[off + 3] as u64) << 24u64) | ((s[off + 4] as u64) << 32u64) | ((s[off + 5] as u64)
        << 40u64) | ((s[off + 6] as u64) << 48u64) | ((s[off + 7] as u64) << 56u64)
}

/// Byte `i` (0 is least significant) of `x`.
pub open spec fn byte_of_u64(x: u64, i: u64) -> u8 {
    ((x >> (8 * i)) & 0xffu64) as u8
}

/// Reading back the four bytes of a `u32` gives the `u32`.
pub proof fn lemma_u32_roundtrip(x: u32)
    ensures
        le_u32(byte_of_u32(x, 0), byte_of_u32(x, 1), byte_of_u32(x, 2), byte_of_u32(x, 3)) == x,
{
    assert(((((x >> 0u32) & 0xffu32) as u8) as u32) | (((((x >> 8u32) & 0xffu32) as u8) as u32)
        << 8u32) | (((((x >> 16u32) & 0xffu32) as u8) as u32) << 16u32) | (((((x >> 24u32)
        & 0xffu32) as u8) as u32) << 24u32) == x) by (bit_vector);
}

/// Reading back the eight bytes of a `u64` gives the `u64`.
pub proof fn lemma_u64_roundtrip(x: u64)
    ensures
        ({
            let s = seq![
                byte_of_u64(x, 0),
                byte_of_u64(x, 1),
                byte_of_u64(x, 2),
                byte_of_u64(x, 3),
                byte_of_u64(x, 4),
                byte_of_u64(x, 5),
                byte_of_u64(x, 6),
                byte_of_u64(x, 7),
            ];
            le_u64_at(s, 0) == x
        }),
{
    let b0 = byte_of_u64(x, 0);
    let b1 = byte_of_u64(x, 1);
    let b2 = byte_of_u64(x, 2);
    let b3 = byte_of_u64(x, 3);
    let b4 = byte_of_u64(x, 4);
    let b5 = byte_of_u64(x, 5);
    let b6 = byte_of_u64(x, 6);
    let b7 = byte_of_u64(x, 7);
    assert(b0 == ((x >> 0u64) & 0xffu64) as u8);
    assert(b1 == ((x >> 8u64) & 0xffu64) as u8);
    assert(b2 == ((x >> 16u64) & 0xffu64) as u8);
    assert(b3 == ((x >> 24u64) & 0xffu64) as u8);
    assert(b4 == ((x >> 32u64) & 0xffu64) as u8);
    assert(b5 == ((x >> 40u64) & 0xffu64) as u8);
    assert(b6 == ((x >> 48u64) & 0xffu64) as u8);
    assert(b7 == ((x >> 56u64) & 0xffu64) as u8);
    assert((b0 as u64) | ((b1 as u64) << 8u64) | ((b2 as u64) << 16u64) | ((b3 as u64) << 24u64)
        | ((b4 as u64) << 32u64) | ((b5 as u64) << 40u64) | ((b6 as u64) << 48u64) | ((b7 as u64)
        << 56u64) == x) by (bit_vector)
        requires
            b0 == ((x >> 0u64) & 0xffu64) as u8,
            b1 == ((x >> 8u64) & 0xffu64) as u8,
            b2 == ((x >> 16u64) & 0xffu64) as u8,
            b3 == ((x >> 24u64) & 0xffu64) as u8,
            b4 == ((x >> 32u64) & 0xffu64) as u8,
            b5 == ((x >> 40u64) & 0xffu64) as u8,
            b6 == ((x >> 48u64) & 0xffu64) as u8,
            b7 == ((x >> 56u64) & 0xffu64) as u8,
    ;
    let s = seq![b0, b1, b2, b3, b4, b5, b6, b7];
    assert(le_u64_at(s, 0) == x);
}

/// The little-endian value of four bytes (as `u32::from_le_bytes`).
pub fn u32_from_le(b0: u8, b1: u8, b2: u8, b3: u8) -> (r: u32)
    ensures
        r == le_u32(b0, b1, b2, b3),
{
    (b0 as u32) | ((b1 as u32) << 8u32) | ((b2 as u32) << 16u32) | ((b3 as u32) << 24u32)
}

/// Byte `i` (0 is least significant) of `x`.
pub fn u32_byte(x: u32, i: u32) -> (r: u8)
    requires
        i < 4,
    ensures
        r == byte_of_u32(x, i),
{
    ((x >> (8 * i)) & 0xffu32) as u8
}

/// Byte `i` (0 is least significant) of `x`.
pub fn u64_byte(x: u64, i: u64) -> (r: u8)
    requires
        i < 8,
    ensures
        r == byte_of_u64(x, i),
{
    ((x >> (8 * i)) & 0xffu64) as u8
}

/// The little-endian `u64` stored in `s` at `off`.
pub fn read_u64_le(s: &Vec<u8>, off: usize) -> (r: u64)
    requires
        off + 8 <= s@.len(),
    ensures
        r == le_u64_at(s@, off as int),
{
    let n = s.len();
    (s[off] as u64) | ((s[off + 1] as u64) << 8u64) | ((s[off + 2] as u64) << 16u64) | ((s[off
        + 3] as u64) << 24u64) | ((s[off + 4] as u64) << 32u64) | ((s[off + 5] as u64) << 40u64)
        | ((s[off + 6] as u64) << 48u64) | ((s[off + 7] as u64) << 56u64)
}

} // verus!

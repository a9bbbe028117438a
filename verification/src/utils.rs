//! Byte-order helpers: byte swapping and little-endian decoding.
use vstd::prelude::*;

verus! {

/// `x` with its two bytes exchanged.
pub open spec fn swap16(x: int) -> int {
    (x % 256) * 256 + x / 256
}

/// `x` with its four bytes in reverse order.
pub open spec fn swap32(x: int) -> int {
    (x % 256) * 16777216 + ((x / 256) % 256) * 65536 + ((x / 65536) % 256) * 256 + x / 16777216
}

/// The little-endian 16-bit value stored in `s` at position `i`.
pub open spec fn le_u16(s: Seq<u8>, i: int) -> int {
    s[i] + 256 * s[i + 1]
}

/// The little-endian 32-bit value stored in `s` at position `i`.
pub open spec fn le_u32(s: Seq<u8>, i: int) -> int {
    s[i] + 256 * s[i + 1] + 65536 * s[i + 2] + 16777216 * s[i + 3]
}

/// Convert a 16-bit value to Intel byte order: its two bytes change places.
pub fn bytes_order_u16(x: u16) -> (r: u16)
    ensures
        r == swap16(x as int),
{
    let lo: u16 = x & 0xff;
    let hi: u16 = x >> 8;
    let r: u16 = (lo << 8) | hi;
    assert(r == (x % 256) * 256 + x / 256) by (bit_vector)
        requires
            lo == x & 0xff,
            hi == x >> 8,
            r == (lo << 8) | hi,
    ;
    r
}

/// Convert a 32-bit value to Intel byte order: its four bytes are reversed.
pub fn bytes_order_u32(x: u32) -> (r: u32)
    ensures
        r == swap32(x as int),
{
    let y0: u32 = x & 0xff;
    let y1: u32 = (x >> 8) & 0xff;
    let y2: u32 = (x >> 16) & 0xff;
    let y3: u32 = x >> 24;
    let r: u32 = (y0 << 24) | (y1 << 16) | (y2 << 8) | y3;
    assert(r == (x % 256) * 16777216 + ((x / 256) % 256) * 65536 + ((x / 65536) % 256) * 256 + x
        / 16777216) by (bit_vector)
        requires
            y0 == x & 0xff,
            y1 == (x >> 8) & 0xff,
            y2 == (x >> 16) & 0xff,
            y3 == x >> 24,
            r == (y0 << 24) | (y1 << 16) | (y2 << 8) | y3,
    ;
    r
}

/// Swapping the bytes of a 16-bit value twice gives the value back.
pub proof fn lemma_bytes_order_u16_involutive(x: u16)
    ensures
        swap16(swap16(x as int)) == x,
{
    let y: u16 = ((x % 256) * 256 + x / 256) as u16;
    assert(y == (x % 256) * 256 + x / 256);
    assert((y % 256) * 256 + y / 256 == x) by (bit_vector)
        requires
            y == (x % 256) * 256 + x / 256,
    ;
}

/// Reversing the bytes of a 32-bit value twice gives the value back.
pub proof fn lemma_bytes_order_u32_involutive(x: u32)
    ensures
        swap32(swap32(x as int)) == x,
{
    let y: u32 = swap32(x as int) as u32;
    assert(y == swap32(x as int));
    assert((y % 256) * 16777216 + ((y / 256) % 256) * 65536 + ((y / 65536) % 256) * 256 + y
        / 16777216 == x) by (bit_vector)
        requires
            y == (x % 256) * 16777216 + ((x / 256) % 256) * 65536 + ((x / 65536) % 256) * 256 + x
                / 16777216,
    ;
}

/// Decode the little-endian 16-bit value held in two bytes.
pub fn read_le_u16(b: &[u8]) -> (r: u16)
    requires
        b@.len() == 2,
    ensures
        r == le_u16(b@, 0),
{
    let b0: u16 = b[0] as u16;
    let b1: u16 = b[1] as u16;
    let r: u16 = b0 | (b1 << 8);
    assert(r == b0 + 256 * b1) by (bit_vector)
        requires
            b0 < 256,
            b1 < 256,
            r == b0 | (b1 << 8),
    ;
    r
}

/// Decode the little-endian 32-bit value held in four bytes.
pub fn read_le_u32(b: &[u8]) -> (r: u32)
    requires
        b@.len() == 4,
    ensures
        r == le_u32(b@, 0),
{
    let b0: u32 = b[0] as u32;
    let b1: u32 = b[1] as u32;
    let b2: u32 = b[2] as u32;
    let b3: u32 = b[3] as u32;
    let r: u32 = b0 | (b1 << 8) | (b2 << 16) | (b3 << 24);
    assert(r == b0 + 256 * b1 + 65536 * b2 + 16777216 * b3) by (bit_vector)
        requires
            b0 < 256,
            b1 < 256,
            b2 < 256,
            b3 < 256,
            r == b0 | (b1 << 8) | (b2 << 16) | (b3 << 24),
    ;
    r
}

/// The four little-endian bytes of `x`.
pub fn le_bytes_u32(x: u32) -> (r: [u8; 4])
    ensures
        le_u32(r@, 0) == x,
{
    let m0: u32 = x & 0xff;
    let m1: u32 = (x >> 8) & 0xff;
    let m2: u32 = (x >> 16) & 0xff;
    let m3: u32 = x >> 24;
    assert(m0 < 256 && m1 < 256 && m2 < 256 && m3 < 256 && x == m0 + 256 * m1 + 65536 * m2
        + 16777216 * m3) by (bit_vector)
        requires
            m0 == x & 0xff,
            m1 == (x >> 8) & 0xff,
            m2 == (x >> 16) & 0xff,
            m3 == x >> 24,
    ;
    let b0: u8 = m0 as u8;
    let b1: u8 = m1 as u8;
    let b2: u8 = m2 as u8;
    let b3: u8 = m3 as u8;
    let r: [u8; 4] = [b0, b1, b2, b3];
    r
}

} // verus!

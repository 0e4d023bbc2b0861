//! Byte orders of fixed-width integers, stated over mathematical sequences.

use vstd::prelude::*;

verus! {

/// The four bytes of `x`, least significant first.
pub open spec fn le_u32(x: u32) -> Seq<u8> {
    seq![(x % 0x100) as u8, ((x / 0x100) % 0x100) as u8, ((x / 0x1_0000) % 0x100) as u8, (x / 0x100_0000) as u8]
}

/// The four bytes of `x`, most significant first.
pub open spec fn be_u32(x: u32) -> Seq<u8> {
    seq![(x / 0x100_0000) as u8, ((x / 0x1_0000) % 0x100) as u8, ((x / 0x100) % 0x100) as u8, (x % 0x100) as u8]
}

/// The two bytes of `x`, most significant first.
pub open spec fn be_u16(x: u16) -> Seq<u8> {
    seq![(x / 0x100) as u8, (x % 0x100) as u8]
}

/// The number whose little-endian bytes are `s[at..at + 4]`.
pub open spec fn le_value(s: Seq<u8>, at: int) -> int {
    s[at] + 0x100 * s[at + 1] + 0x1_0000 * s[at + 2] + 0x100_0000 * s[at + 3]
}

/// The number whose big-endian bytes are `s[at..at + 4]`.
pub open spec fn be_value(s: Seq<u8>, at: int) -> int {
    0x100_0000 * s[at] + 0x1_0000 * s[at + 1] + 0x100 * s[at + 2] + s[at + 3]
}

/// Reading back the little-endian bytes of `x` gives `x`.
pub proof fn lemma_le_u32_value(x: u32)
    ensures
        le_u32(x).len() == 4,
        le_value(le_u32(x), 0) == x,
{
    let s = le_u32(x);
    assert(((x % 0x100) as u8) as int + 0x100 * (((x / 0x100) % 0x100) as u8) as int
        + 0x1_0000 * (((x / 0x1_0000) % 0x100) as u8) as int
        + 0x100_0000 * ((x / 0x100_0000) as u8) as int == x) by (bit_vector);
}

/// Reading back the big-endian bytes of `x` gives `x`.
pub proof fn lemma_be_u32_value(x: u32)
    ensures
        be_u32(x).len() == 4,
        be_value(be_u32(x), 0) == x,
{
    assert(((x % 0x100) as u8) as int + 0x100 * (((x / 0x100) % 0x100) as u8) as int
        + 0x1_0000 * (((x / 0x1_0000) % 0x100) as u8) as int
        + 0x100_0000 * ((x / 0x100_0000) as u8) as int == x) by (bit_vector);
}

/// Reading back the big-endian bytes of `x` gives `x`.
pub proof fn lemma_be_u16_value(x: u16)
    ensures
        be_u16(x).len() == 2,
        0x100 * be_u16(x)[0] + be_u16(x)[1] == x,
{
    assert(0x100 * ((x / 0x100) as u8) as int + ((x % 0x100) as u8) as int == x) by (bit_vector);
}

/// Byte `k` (0 = least significant) of `x`, computed as the hardware does.
pub fn byte_of_u32(x: u32, k: u32) -> (b: u8)
    requires
        k < 4,
    ensures
        k == 0 ==> b == x % 0x100,
        k == 1 ==> b == (x / 0x100) % 0x100,
        k == 2 ==> b == (x / 0x1_0000) % 0x100,
        k == 3 ==> b == x / 0x100_0000,
{
    let shift: u32 = k * 8;
    let r: u32 = (x >> shift) & 0xff;
    assert(k == 0 ==> (x >> (k * 8)) & 0xff == x % 0x100) by (bit_vector);
    assert(k == 1 ==> (x >> (k * 8)) & 0xff == (x / 0x100) % 0x100) by (bit_vector);
    assert(k == 2 ==> (x >> (k * 8)) & 0xff == (x / 0x1_0000) % 0x100) by (bit_vector);
    assert(k == 3 ==> (x >> (k * 8)) & 0xff == x / 0x100_0000) by (bit_vector);
    r as u8
}

/// The number read from four bytes in little-endian order.
pub fn u32_from_le(b0: u8, b1: u8, b2: u8, b3: u8) -> (x: u32)
    ensures
        x == b0 + 0x100 * b1 + 0x1_0000 * b2 + 0x100_0000 * b3,
{
    let x: u32 = (b0 as u32) | ((b1 as u32) << 8) | ((b2 as u32) << 16) | ((b3 as u32) << 24);
    assert((b0 as u32) | ((b1 as u32) << 8) | ((b2 as u32) << 16) | ((b3 as u32) << 24)
        == b0 + 0x100 * b1 + 0x1_0000 * b2 + 0x100_0000 * b3) by (bit_vector);
    x
}

} // verus!

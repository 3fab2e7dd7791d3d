//! Little-endian byte packing primitives shared by the frame codec.

use vstd::prelude::*;

verus! {

/// The two little-endian bytes of a 16-bit value.
pub open spec fn spec_le16(x: u16) -> Seq<u8> {
    seq![(x & 0xFF) as u8, ((x >> 8) & 0xFF) as u8]
}

/// The four little-endian bytes of a 32-bit value.
pub open spec fn spec_le32(x: u32) -> Seq<u8> {
    seq![
        (x & 0xFF) as u8,
        ((x >> 8) & 0xFF) as u8,
        ((x >> 16) & 0xFF) as u8,
        ((x >> 24) & 0xFF) as u8,
    ]
}

/// The 32-bit value whose little-endian bytes are `b0 b1 b2 b3`.
pub open spec fn spec_u32_from_le(b0: u8, b1: u8, b2: u8, b3: u8) -> u32 {
    (b0 as u32) | ((b1 as u32) << 8) | ((b2 as u32) << 16) | ((b3 as u32) << 24)
}

/// The 16-bit value whose little-endian bytes are `b0 b1`.
pub open spec fn spec_u16_from_le(b0: u8, b1: u8) -> u16 {
    (b0 as u16) | ((b1 as u16) << 8)
}

/// The 32-bit value stored little-endian at offset `off` of `b`.
pub open spec fn spec_u32_at(b: Seq<u8>, off: int) -> u32 {
    spec_u32_from_le(b[off], b[off + 1], b[off + 2], b[off + 3])
}

/// Decoding the four bytes of `spec_le32` gives the value back.
pub proof fn lemma_le32_decode(x: u32)
    ensures
        spec_u32_from_le(
            spec_le32(x)[0],
            spec_le32(x)[1],
            spec_le32(x)[2],
            spec_le32(x)[3],
        ) == x,
{
    assert(((((x & 0xFF) as u8) as u32) | ((((x >> 8) & 0xFF) as u8) as u32) << 8
        | ((((x >> 16) & 0xFF) as u8) as u32) << 16 | ((((x >> 24) & 0xFF) as u8) as u32) << 24)
        == x) by (bit_vector);
}

/// Encoding a decoded 32-bit value reproduces the original four bytes.
pub proof fn lemma_le32_encode(b0: u8, b1: u8, b2: u8, b3: u8)
    ensures
        spec_le32(spec_u32_from_le(b0, b1, b2, b3)) == seq![b0, b1, b2, b3],
{
    let x = spec_u32_from_le(b0, b1, b2, b3);
    assert((((b0 as u32) | ((b1 as u32) << 8) | ((b2 as u32) << 16) | ((b3 as u32) << 24)) & 0xFF)
        as u8 == b0) by (bit_vector);
    assert(((((b0 as u32) | ((b1 as u32) << 8) | ((b2 as u32) << 16) | ((b3 as u32) << 24)) >> 8)
        & 0xFF) as u8 == b1) by (bit_vector);
    assert(((((b0 as u32) | ((b1 as u32) << 8) | ((b2 as u32) << 16) | ((b3 as u32) << 24)) >> 16)
        & 0xFF) as u8 == b2) by (bit_vector);
    assert(((((b0 as u32) | ((b1 as u32) << 8) | ((b2 as u32) << 16) | ((b3 as u32) << 24)) >> 24)
        & 0xFF) as u8 == b3) by (bit_vector);
    assert(spec_le32(x) =~= seq![b0, b1, b2, b3]);
}

/// Decoding the two bytes of `spec_le16` gives the value back.
pub proof fn lemma_le16_decode(x: u16)
    ensures
        spec_u16_from_le(spec_le16(x)[0], spec_le16(x)[1]) == x,
{
    assert(((((x & 0xFF) as u8) as u16) | ((((x >> 8) & 0xFF) as u8) as u16) << 8) == x)
        by (bit_vector);
}

/// Encoding a decoded 16-bit value reproduces the original two bytes.
pub proof fn lemma_le16_encode(b0: u8, b1: u8)
    ensures
        spec_le16(spec_u16_from_le(b0, b1)) == seq![b0, b1],
{
    assert((((b0 as u16) | ((b1 as u16) << 8)) & 0xFF) as u8 == b0) by (bit_vector);
    assert(((((b0 as u16) | ((b1 as u16) << 8)) >> 8) & 0xFF) as u8 == b1) by (bit_vector);
    assert(spec_le16(spec_u16_from_le(b0, b1)) =~= seq![b0, b1]);
}

/// Appends the four little-endian bytes of `x` to `out`.
pub fn push_le32(out: &mut Vec<u8>, x: u32)
    requires
        old(out)@.len() + 4 <= usize::MAX,
    ensures
        final(out)@ == old(out)@ + spec_le32(x),
{
    proof {
        assert(x & 0xFF <= 0xFF && (x >> 8) & 0xFF <= 0xFF && (x >> 16) & 0xFF <= 0xFF
            && (x >> 24) & 0xFF <= 0xFF) by (bit_vector);
    }
    out.push((x & 0xFF) as u8);
    out.push(((x >> 8) & 0xFF) as u8);
    out.push(((x >> 16) & 0xFF) as u8);
    out.push(((x >> 24) & 0xFF) as u8);
    assert(out@ =~= old(out)@ + spec_le32(x));
}

/// Appends the two little-endian bytes of `x` to `out`.
pub fn push_le16(out: &mut Vec<u8>, x: u16)
    requires
        old(out)@.len() + 2 <= usize::MAX,
    ensures
        final(out)@ == old(out)@ + spec_le16(x),
{
    proof {
        assert(x & 0xFF <= 0xFF && (x >> 8) & 0xFF <= 0xFF) by (bit_vector);
    }
    out.push((x & 0xFF) as u8);
    out.push(((x >> 8) & 0xFF) as u8);
    assert(out@ =~= old(out)@ + spec_le16(x));
}

/// The four little-endian bytes of `x`, lowest first.
pub fn le32_parts(x: u32) -> (r: (u8, u8, u8, u8))
    ensures
        seq![r.0, r.1, r.2, r.3] == spec_le32(x),
{
    proof {
        assert(x & 0xFF <= 0xFF && (x >> 8) & 0xFF <= 0xFF && (x >> 16) & 0xFF <= 0xFF
            && (x >> 24) & 0xFF <= 0xFF) by (bit_vector);
    }
    let r = ((x & 0xFF) as u8, ((x >> 8) & 0xFF) as u8, ((x >> 16) & 0xFF) as u8,
        ((x >> 24) & 0xFF) as u8);
    assert(seq![r.0, r.1, r.2, r.3] =~= spec_le32(x));
    r
}

/// Reads the 32-bit little-endian value at offset `off` of `b`.
pub fn read_u32_le(b: &Vec<u8>, off: usize) -> (r: u32)
    requires
        off + 4 <= b@.len(),
    ensures
        r == spec_u32_at(b@, off as int),
{
    let l: usize = b.len();
    assert(off + 4 <= l);
    (b[off] as u32) | ((b[off + 1] as u32) << 8) | ((b[off + 2] as u32) << 16)
        | ((b[off + 3] as u32) << 24)
}

} // verus!

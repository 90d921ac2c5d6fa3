//! Big-endian encodings of `u16` and `u32` values, as used everywhere on the
//! wire: length prefixes, checksums and IPv4 addresses are all sent big-endian.

use vstd::prelude::*;

verus! {

/// The two big-endian bytes of a `u16`.
pub open spec fn spec_u16_to_be(x: u16) -> Seq<u8> {
    seq![(x >> 8) as u8, (x & 0xFF) as u8]
}

/// The `u16` read back from two big-endian bytes.
pub open spec fn spec_u16_from_be(b0: u8, b1: u8) -> u16 {
    (((b0 as u16) << 8) | (b1 as u16)) as u16
}

/// The four big-endian bytes of a `u32`.
pub open spec fn spec_u32_to_be(x: u32) -> Seq<u8> {
    seq![
        (x >> 24) as u8,
        ((x >> 16) & 0xFF) as u8,
        ((x >> 8) & 0xFF) as u8,
        (x & 0xFF) as u8,
    ]
}

/// The `u32` read back from four big-endian bytes.
pub open spec fn spec_u32_from_be(b0: u8, b1: u8, b2: u8, b3: u8) -> u32 {
    (((b0 as u32) << 24) | ((b1 as u32) << 16) | ((b2 as u32) << 8) | (b3 as u32)) as u32
}

/// Decoding the encoding of a `u16` gives the value back.
pub proof fn lemma_u16_be_roundtrip(x: u16)
    by (bit_vector)
    ensures
        spec_u16_from_be((x >> 8) as u8, (x & 0xFF) as u8) == x,
{
}

/// Encoding the decoding of two bytes gives the bytes back.
pub proof fn lemma_u16_be_bytes_roundtrip(b0: u8, b1: u8)
    by (bit_vector)
    ensures
        (spec_u16_from_be(b0, b1) >> 8) as u8 == b0,
        (spec_u16_from_be(b0, b1) & 0xFF) as u8 == b1,
{
}

/// Decoding the encoding of a `u32` gives the value back.
pub proof fn lemma_u32_be_roundtrip(x: u32)
    by (bit_vector)
    ensures
        spec_u32_from_be(
            (x >> 24) as u8,
            ((x >> 16) & 0xFF) as u8,
            ((x >> 8) & 0xFF) as u8,
            (x & 0xFF) as u8,
        ) == x,
{
}

pub fn u16_to_be(x: u16) -> (r: Vec<u8>)
    ensures
        r@ == spec_u16_to_be(x),
{
    let mut r: Vec<u8> = Vec::new();
    r.push((x >> 8) as u8);
    r.push((x & 0xFF) as u8);
    proof {
        assert(r@ =~= spec_u16_to_be(x));
    }
    r
}

pub fn u16_from_be(b0: u8, b1: u8) -> (r: u16)
    ensures
        r == spec_u16_from_be(b0, b1),
{
    ((b0 as u16) << 8) | (b1 as u16)
}

pub fn u32_to_be(x: u32) -> (r: Vec<u8>)
    ensures
        r@ == spec_u32_to_be(x),
{
    let mut r: Vec<u8> = Vec::new();
    r.push((x >> 24) as u8);
    r.push(((x >> 16) & 0xFF) as u8);
    r.push(((x >> 8) & 0xFF) as u8);
    r.push((x & 0xFF) as u8);
    proof {
        assert(r@ =~= spec_u32_to_be(x));
    }
    r
}

pub fn u32_from_be(b0: u8, b1: u8, b2: u8, b3: u8) -> (r: u32)
    ensures
        r == spec_u32_from_be(b0, b1, b2, b3),
{
    ((b0 as u32) << 24) | ((b1 as u32) << 16) | ((b2 as u32) << 8) | (b3 as u32)
}

} // verus!

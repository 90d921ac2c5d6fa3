//! A lightweight frame variant: a payload followed by a 16-bit checksum,
//! with no sequence byte. The checksum is computed here rather than taken
//! from a library, so it is specified and verified down to the bit level.

use vstd::prelude::*;

use crate::bytes_be::{
    lemma_u16_be_roundtrip, spec_u16_from_be, spec_u16_to_be, u16_from_be, u16_to_be,
};
use crate::packets::corrupt_bytes;

verus! {

/// One step of the 16-bit checksum: folds one message byte into the running
/// state.
pub open spec fn spec_checksum16_step(crc: u16, byte: u8) -> u16 {
    let x0 = (byte as u16) ^ (crc & 0xFFu16);
    let x = x0 ^ ((x0 & 0x0Fu16) << 4u16);
    ((x << 8u16) | (crc >> 8u16)) ^ (x >> 4u16) ^ (x << 3u16)
}

/// The 16-bit checksum of a message: the step function folded over the bytes
/// in order, starting from the all-ones state.
pub open spec fn spec_checksum16(msg: Seq<u8>) -> u16
    decreases msg.len(),
{
    if msg.len() == 0 {
        0xFFFFu16
    } else {
        spec_checksum16_step(spec_checksum16(msg.drop_last()), msg.last())
    }
}

/// Computes the 16-bit checksum of a message.
pub fn checksum(msg: &[u8]) -> (r: u16)
    ensures
        r == spec_checksum16(msg@),
{
    let mut crc: u16 = 0xFFFF;
    let mut i: usize = 0;
    while i < msg.len()
        invariant
            i <= msg@.len(),
            crc == spec_checksum16(msg@.take(i as int)),
        decreases msg@.len() - i,
    {
        let byte = msg[i];
        let x0 = (byte as u16) ^ (crc & 0xFF);
        let x = x0 ^ ((x0 & 0x0F) << 4u16);
        crc = ((x << 8u16) | (crc >> 8u16)) ^ (x >> 4u16) ^ (x << 3u16);
        i += 1;
        proof {
            assert(msg@.take(i as int).drop_last() =~= msg@.take(i as int - 1));
            assert(msg@.take(i as int).last() == msg@[i as int - 1]);
        }
    }
    proof {
        assert(msg@.take(msg@.len() as int) =~= msg@);
    }
    crc
}

/// Flips bit `i` (counting from the least significant) of a byte.
pub fn flip_bit_in_u8(byte: &u8, i: u8) -> (r: u8)
    requires
        i < 8,
    ensures
        r == (*byte ^ (1u8 << i)),
{
    *byte ^ (1u8 << i)
}

/// The on-wire image of a frame of this variant: the payload followed by the
/// big-endian 16-bit checksum of the payload.
pub open spec fn spec_frame16_image(payload: Seq<u8>) -> Seq<u8> {
    payload + spec_u16_to_be(spec_checksum16(payload))
}

/// The payload part of a frame image: everything but the last 2 bytes.
pub open spec fn spec_frame16_payload(c: Seq<u8>) -> Seq<u8>
    recommends
        c.len() >= 2,
{
    c.take(c.len() - 2)
}

/// A frame of this variant is valid iff the checksum recomputed over the
/// payload equals its last two bytes, read big-endian.
pub open spec fn spec_frame16_ok(c: Seq<u8>) -> bool {
    c.len() >= 2 && spec_checksum16(spec_frame16_payload(c)) == spec_u16_from_be(
        c[c.len() - 2],
        c[c.len() - 1],
    )
}

/// The character showing bit `j` (most-significant first) of a byte.
pub open spec fn spec_bit_char(b: u8, j: int) -> char {
    if (b >> ((7 - j) as u8)) & 1u8 == 1u8 {
        '1'
    } else {
        '0'
    }
}

/// A data-carrying packet of this variant: payload plus 16-bit checksum.
#[derive(Debug, PartialEq, Clone)]
pub struct Frame {
    pub content: Vec<u8>,
}

impl Frame {
    /// Builds the frame for `payload_data`: appends the big-endian 16-bit
    /// checksum of the payload.
    pub fn new(payload_data: &[u8]) -> (r: Self)
        ensures
            r.content@ == spec_frame16_image(payload_data@),
            r.content@.len() == payload_data@.len() + 2,
    {
        let mut payload_with_checksum: Vec<u8> = vstd::slice::slice_to_vec(payload_data);
        let checksum_in_bytes = u16_to_be(checksum(payload_data));
        payload_with_checksum.extend_from_slice(checksum_in_bytes.as_slice());
        proof {
            assert(payload_with_checksum@ =~= spec_frame16_image(payload_data@));
        }
        Self { content: payload_with_checksum }
    }

    /// Splits the frame into payload and checksum field. A frame too short to
    /// carry the 2 checksum bytes yields an empty payload and checksum 0.
    pub fn get_payload_and_checksum(&self) -> (r: (Vec<u8>, u16))
        ensures
            self.content@.len() >= 2 ==> {
                &&& r.0@ == spec_frame16_payload(self.content@)
                &&& r.1 == spec_u16_from_be(
                    self.content@[self.content@.len() - 2],
                    self.content@[self.content@.len() - 1],
                )
            },
            self.content@.len() < 2 ==> r.0@ == Seq::<u8>::empty() && r.1 == 0,
    {
        let n = self.content.len();
        if n < 2 {
            (Vec::new(), 0)
        } else {
            let payload = vstd::slice::slice_to_vec(
                vstd::slice::slice_subrange(self.content.as_slice(), 0, n - 2),
            );
            let cksum = u16_from_be(self.content[n - 2], self.content[n - 1]);
            (payload, cksum)
        }
    }

    /// Whether the checksum recomputed over the payload matches the checksum
    /// field. Frames shorter than the 2 checksum bytes are invalid.
    pub fn is_valid(&self) -> (r: bool)
        ensures
            r == spec_frame16_ok(self.content@),
    {
        if self.content.len() < 2 {
            return false;
        }
        let (received_payload, received_checksum) = self.get_payload_and_checksum();
        let computed_checksum = checksum(received_payload.as_slice());
        received_checksum == computed_checksum
    }

    /// The frame after the simulated noisy channel: every bit of the on-wire
    /// image flipped independently with probability `numerator / denominator`.
    pub fn simulate_errors(
        &self,
        numerator: u32,
        denominator: u32,
        rng: &mut rand::rngs::ThreadRng,
    ) -> (r: Self)
        requires
            0 < denominator,
            numerator <= denominator,
        ensures
            r.content@.len() == self.content@.len(),
            numerator == 0 ==> r.content@ == self.content@,
            numerator == denominator ==> forall|j: int|
                0 <= j < r.content@.len() ==> r.content@[j] == !self.content@[j],
    {
        Self { content: corrupt_bytes(self.content.as_slice(), numerator, denominator, rng) }
    }

    /// The frame's bits as a string of `0` and `1` characters, each byte
    /// most-significant bit first.
    pub fn to_binary_string(&self) -> (r: String)
        ensures
            r@.len() == self.content@.len() * 8,
            forall|k: int|
                0 <= k < r@.len() ==> #[trigger] r@[k] == spec_bit_char(
                    self.content@[k / 8],
                    k % 8,
                ),
    {
        proof {
            reveal_strlit("0");
            reveal_strlit("1");
        }
        let mut res = String::new();
        let mut i: usize = 0;
        while i < self.content.len()
            invariant
                i <= self.content@.len(),
                res@.len() == i * 8,
                "0"@ =~= seq!['0'],
                "1"@ =~= seq!['1'],
                forall|k: int|
                    0 <= k < res@.len() ==> #[trigger] res@[k] == spec_bit_char(
                        self.content@[k / 8],
                        k % 8,
                    ),
            decreases self.content@.len() - i,
        {
            let byte = self.content[i];
            let mut j: u8 = 0;
            while j < 8
                invariant
                    i < self.content@.len(),
                    byte == self.content@[i as int],
                    j <= 8,
                    res@.len() == i * 8 + j,
                    "0"@ =~= seq!['0'],
                    "1"@ =~= seq!['1'],
                    forall|k: int|
                        0 <= k < res@.len() ==> #[trigger] res@[k] == spec_bit_char(
                            self.content@[k / 8],
                            k % 8,
                        ),
                decreases 8 - j,
            {
                if (byte >> (7 - j)) & 1 == 1 {
                    res.append("1");
                } else {
                    res.append("0");
                }
                proof {
                    vstd::arithmetic::div_mod::lemma_fundamental_div_mod_converse(
                        8 * (i as int) + (j as int),
                        8,
                        i as int,
                        j as int,
                    );
                }
                j += 1;
            }
            i += 1;
        }
        res
    }
}

/// A freshly built frame of this variant is valid.
pub proof fn lemma_fresh_frame16_valid(payload: Seq<u8>)
    ensures
        spec_frame16_ok(spec_frame16_image(payload)),
        spec_frame16_payload(spec_frame16_image(payload)) == payload,
{
    let c = spec_frame16_image(payload);
    assert(spec_frame16_payload(c) =~= payload);
    let ck = spec_checksum16(payload);
    assert(c[c.len() - 2] == (ck >> 8) as u8);
    assert(c[c.len() - 1] == (ck & 0xFF) as u8);
    lemma_u16_be_roundtrip(ck);
}

} // verus!

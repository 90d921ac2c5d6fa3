//! The data-carrying frame of the protocol: a payload, a big-endian CRC-32
//! checksum over the payload bytes only, and a trailing one-byte sequence
//! number that the checksum deliberately does not cover.

use vstd::prelude::*;

use crate::bytes_be::{
    lemma_u32_be_roundtrip, spec_u32_from_be, spec_u32_to_be, u32_from_be, u32_to_be,
};
use crate::packets::{corrupt_bytes, SEQUENCE_ZERO};

verus! {

/// The CRC-32 (IEEE) checksum of a byte sequence, as the `crc32fast` crate
/// computes it. Its value on given bytes is not stated here; it is pinned only
/// by the contract of [`checksum`].
pub uninterp spec fn crc32_of(data: Seq<u8>) -> u32;

/// Computes the CRC-32 checksum of a message.
///
/// Relies on `crc32fast::hash`: the result is a pure function of the input
/// bytes, and the hash of the empty input is 0 (the hasher starts from state 0
/// and an empty update leaves it there).
#[verifier::external_body]
pub fn checksum(msg: &[u8]) -> (r: u32)
    ensures
        r == crc32_of(msg@),
        msg@.len() == 0 ==> r == 0,
{
    crc32fast::hash(msg)
}

/// Flips bit `i` (counting from the least significant) of a byte.
pub fn flip_bit_in_u8(byte: &u8, i: u8) -> (r: u8)
    requires
        i < 8,
    ensures
        r == (*byte ^ (1u8 << i)),
{
    *byte ^ (1u8 << i)
}

/// The full on-wire image of a frame built from `payload` and sequence byte
/// `s`: the payload, the big-endian CRC-32 of the payload, then `s`.
pub open spec fn spec_frame_image(payload: Seq<u8>, s: u8) -> Seq<u8> {
    payload + spec_u32_to_be(crc32_of(payload)) + seq![s]
}

/// The payload part of a frame image: everything but the last 5 bytes.
pub open spec fn spec_frame_payload(c: Seq<u8>) -> Seq<u8>
    recommends
        c.len() >= 5,
{
    c.take(c.len() - 5)
}

/// The checksum field of a frame image: the 4 bytes before the sequence byte,
/// read big-endian.
pub open spec fn spec_frame_checksum(c: Seq<u8>) -> u32
    recommends
        c.len() >= 5,
{
    spec_u32_from_be(c[c.len() - 5], c[c.len() - 4], c[c.len() - 3], c[c.len() - 2])
}

/// The sequence byte of a frame image: its last byte.
pub open spec fn spec_frame_seq(c: Seq<u8>) -> u8
    recommends
        c.len() >= 1,
{
    c[c.len() - 1]
}

/// A frame is valid iff it is long enough to hold its checksum and sequence
/// byte, and the CRC-32 recomputed over the payload equals the checksum field.
/// The sequence byte is not covered.
pub open spec fn spec_frame_ok(c: Seq<u8>) -> bool {
    c.len() >= 5 && crc32_of(spec_frame_payload(c)) == spec_frame_checksum(c)
}

/// A data-carrying packet: payload, CRC-32 checksum, sequence byte.
#[derive(Debug, PartialEq, Clone)]
pub struct Frame {
    pub content: Vec<u8>,
}

impl Frame {
    /// Builds the frame for `payload_data`: appends the big-endian CRC-32 of
    /// the payload and then the sequence byte.
    pub fn new(payload_data: &[u8], sequence_byte: u8) -> (r: Self)
        ensures
            r.content@ == spec_frame_image(payload_data@, sequence_byte),
            r.content@.len() == payload_data@.len() + 5,
    {
        let mut complete_payload: Vec<u8> = vstd::slice::slice_to_vec(payload_data);
        let checksum_in_bytes = u32_to_be(checksum(payload_data));
        complete_payload.extend_from_slice(checksum_in_bytes.as_slice());
        complete_payload.push(sequence_byte);
        proof {
            assert(complete_payload@ =~= spec_frame_image(payload_data@, sequence_byte));
        }
        Self { content: complete_payload }
    }

    /// Wraps received bytes as a frame, valid or not.
    pub fn from_bytes(frame: &[u8]) -> (r: Self)
        ensures
            r.content@ == frame@,
    {
        Self { content: vstd::slice::slice_to_vec(frame) }
    }

    /// Splits the frame into payload, checksum field and sequence byte.
    /// A frame too short to carry the 5 trailing bytes yields an empty
    /// payload, checksum 0 and sequence byte `SEQUENCE_ZERO`.
    pub fn get_payload_and_checksum_and_sequence_byte(&self) -> (r: (Vec<u8>, u32, u8))
        ensures
            self.content@.len() >= 5 ==> {
                &&& r.0@ == spec_frame_payload(self.content@)
                &&& r.1 == spec_frame_checksum(self.content@)
                &&& r.2 == spec_frame_seq(self.content@)
            },
            self.content@.len() < 5 ==> {
                &&& r.0@ == Seq::<u8>::empty()
                &&& r.1 == 0
                &&& r.2 == SEQUENCE_ZERO
            },
    {
        let n = self.content.len();
        if n < 5 {
            (Vec::new(), 0, SEQUENCE_ZERO)
        } else {
            let payload = vstd::slice::slice_to_vec(
                vstd::slice::slice_subrange(self.content.as_slice(), 0, n - 5),
            );
            let cksum = u32_from_be(
                self.content[n - 5],
                self.content[n - 4],
                self.content[n - 3],
                self.content[n - 2],
            );
            let sequence = self.content[n - 1];
            (payload, cksum, sequence)
        }
    }

    /// Whether the CRC-32 recomputed over the payload matches the checksum
    /// field. Frames shorter than the 5 trailing bytes are invalid.
    pub fn is_valid(&self) -> (r: bool)
        ensures
            r == spec_frame_ok(self.content@),
    {
        if self.content.len() < 5 {
            return false;
        }
        let (received_payload, received_checksum, _received_sequence) =
            self.get_payload_and_checksum_and_sequence_byte();
        let computed_checksum = checksum(received_payload.as_slice());
        received_checksum == computed_checksum
    }

    /// The frame as it leaves a simulated noisy channel: every bit of the
    /// on-wire image is flipped independently with probability
    /// `numerator / denominator`. A probability of zero leaves it unchanged;
    /// a probability of one complements every byte.
    pub fn simulate_errors(
        &self,
        numerator: u32,
        denominator: u32,
        rng: &mut rand::rngs::ThreadRng,
    ) -> (r: Self)
        requires
            0 < denominator,
            numerator <= denominator,
        ensures
            r.content@.len() == self.content@.len(),
            numerator == 0 ==> r.content@ == self.content@,
            numerator == denominator ==> forall|j: int|
                0 <= j < r.content@.len() ==> r.content@[j] == !self.content@[j],
    {
        Self { content: corrupt_bytes(self.content.as_slice(), numerator, denominator, rng) }
    }
}

/// A freshly built frame is valid: the checksum field it carries is exactly
/// the CRC-32 of its payload.
pub proof fn lemma_fresh_frame_valid(payload: Seq<u8>, s: u8)
    ensures
        spec_frame_ok(spec_frame_image(payload, s)),
        spec_frame_payload(spec_frame_image(payload, s)) == payload,
        spec_frame_seq(spec_frame_image(payload, s)) == s,
{
    let c = spec_frame_image(payload, s);
    assert(c.len() == payload.len() + 5);
    assert(spec_frame_payload(c) =~= payload);
    let ck = crc32_of(payload);
    assert(c[c.len() - 5] == (ck >> 24) as u8);
    assert(c[c.len() - 4] == ((ck >> 16) & 0xFF) as u8);
    assert(c[c.len() - 3] == ((ck >> 8) & 0xFF) as u8);
    assert(c[c.len() - 2] == (ck & 0xFF) as u8);
    lemma_u32_be_roundtrip(ck);
    assert(c[c.len() - 1] == s);
}

} // verus!

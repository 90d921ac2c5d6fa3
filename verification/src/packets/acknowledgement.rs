//! Acknowledgment packets. A positive acknowledgment (ACK) carries the
//! ack-code byte, the sequence byte it acknowledges, the sender's IPv4
//! address, and a CRC-32 over those first six bytes: 10 bytes on the wire.
//! Negative acknowledgments exist as a packet kind but the shipped protocol
//! never sends them; a receiver simply stays silent instead.

use vstd::prelude::*;

use crate::bytes_be::{
    lemma_u32_be_roundtrip, spec_u16_from_be, spec_u16_to_be, spec_u32_to_be, u16_from_be,
    u32_to_be,
};
use crate::packets::frame::{checksum, crc32_of};
use crate::packets::{
    corrupt_bytes, lemma_low_bits16_step, spec_low_bits16, ACK_VALUE, NACK_VALUE,
};

verus! {

/// The 2-byte core of an acknowledgment: code byte then sequence byte, read
/// as a big-endian `u16`.
pub open spec fn spec_ack_content(code: u8, sequence: u8) -> u16 {
    spec_u16_from_be(code, sequence)
}

/// A positive acknowledgment's code and sequence bytes.
#[derive(Debug, PartialEq, Eq, Structural, Clone, Copy)]
pub struct ACK {
    pub content: u16,
}

impl ACK {
    /// An ACK whose code byte is `ACK_VALUE`, acknowledging `sequence_byte_of_next_expected_package`.
    pub fn new(sequence_byte_of_next_expected_package: u8) -> (r: Self)
        ensures
            r.content == spec_ack_content(ACK_VALUE, sequence_byte_of_next_expected_package),
    {
        Self { content: u16_from_be(ACK_VALUE, sequence_byte_of_next_expected_package) }
    }

    /// Wraps two received bytes as an ACK; they may not form a valid one.
    pub fn from_bytes(bytes: [u8; 2]) -> (r: Self)
        ensures
            r.content == spec_u16_from_be(bytes@[0], bytes@[1]),
    {
        Self { content: u16_from_be(bytes[0], bytes[1]) }
    }

    /// The two big-endian bytes of the ACK.
    pub fn to_bytes(&self) -> (r: [u8; 2])
        ensures
            r@ == spec_u16_to_be(self.content),
    {
        let r = [(self.content >> 8) as u8, (self.content & 0xFF) as u8];
        proof {
            assert(r@ =~= spec_u16_to_be(self.content));
        }
        r
    }

    /// Flips one bit of the packet; indices outside the 16 bits do nothing.
    pub fn flip_bit(&mut self, bit_index: u8)
        ensures
            bit_index < 16 ==> final(self).content == (old(self).content ^ (1u16 << bit_index)),
            bit_index >= 16 ==> final(self).content == old(self).content,
    {
        if bit_index < 16 {
            self.content = self.content ^ (1u16 << bit_index);
        }
    }

    /// The code byte and the sequence byte, in that order.
    pub fn get_ack_and_sequence_byte(&self) -> (r: (u8, u8))
        ensures
            r.0 == (self.content >> 8) as u8,
            r.1 == (self.content & 0xFF) as u8,
    {
        ((self.content >> 8) as u8, (self.content & 0xFF) as u8)
    }

    /// Whether the code byte equals `ACK_VALUE`.
    pub fn is_valid(&self) -> (r: bool)
        ensures
            r == spec_ack_is_valid(*self),
    {
        let (code, _sequence) = self.get_ack_and_sequence_byte();
        code == ACK_VALUE
    }

    /// The ACK after crossing the simulated noisy channel: each of its 16
    /// bits is flipped independently with probability
    /// `numerator / denominator`. A probability of zero leaves it unchanged;
    /// a probability of one complements its content.
    pub fn simulate_errors(
        &self,
        numerator: u32,
        denominator: u32,
        rng: &mut rand::rngs::ThreadRng,
    ) -> (r: Self)
        requires
            0 < denominator,
            numerator <= denominator,
        ensures
            numerator == 0 ==> r == *self,
            numerator == denominator ==> r.content == !self.content,
    {
        let mut cloned_ack = self.clone();
        proof {
            lemma_low_bits16_step(self.content, 0);
        }
        let mut i: u8 = 0;
        while i < 16
            invariant
                0 < denominator,
                numerator <= denominator,
                i <= 16,
                numerator == 0 ==> cloned_ack == *self,
                numerator == denominator ==> cloned_ack.content == (self.content ^ spec_low_bits16(
                    i as int,
                )),
            decreases 16 - i,
        {
            if crate::packets::random_ratio(rng, numerator, denominator) {
                cloned_ack.flip_bit(i);
            }
            proof {
                if numerator == denominator {
                    lemma_low_bits16_step(self.content, i);
                }
            }
            i += 1;
        }
        proof {
            if numerator == denominator {
                lemma_low_bits16_step(self.content, 0);
            }
        }
        cloned_ack
    }
}

/// An ACK is valid when its code byte equals `ACK_VALUE`.
pub open spec fn spec_ack_is_valid(a: ACK) -> bool {
    (a.content >> 8) as u8 == ACK_VALUE
}

/// A negative acknowledgment's code and sequence bytes. Vestigial: the
/// shipped protocol never sends one.
#[derive(Debug, PartialEq, Eq, Structural, Clone, Copy)]
pub struct NACK {
    pub content: u16,
}

impl NACK {
    /// A NACK whose code byte is `NACK_VALUE`, rejecting `sequence_byte_of_rejected_package`.
    pub fn new(sequence_byte_of_rejected_package: u8) -> (r: Self)
        ensures
            r.content == spec_ack_content(NACK_VALUE, sequence_byte_of_rejected_package),
    {
        Self { content: u16_from_be(NACK_VALUE, sequence_byte_of_rejected_package) }
    }

    /// Flips one bit of the packet; indices outside the 16 bits do nothing.
    pub fn flip_bit(&mut self, bit_index: u8)
        ensures
            bit_index < 16 ==> final(self).content == (old(self).content ^ (1u16 << bit_index)),
            bit_index >= 16 ==> final(self).content == old(self).content,
    {
        if bit_index < 16 {
            self.content = self.content ^ (1u16 << bit_index);
        }
    }

    /// The code byte and the sequence byte, in that order.
    pub fn get_ack_and_sequence_byte(&self) -> (r: (u8, u8))
        ensures
            r.0 == (self.content >> 8) as u8,
            r.1 == (self.content & 0xFF) as u8,
    {
        ((self.content >> 8) as u8, (self.content & 0xFF) as u8)
    }

    /// Whether the code byte equals `NACK_VALUE`.
    pub fn is_valid(&self) -> (r: bool)
        ensures
            r == spec_nack_is_valid(*self),
    {
        let (code, _sequence) = self.get_ack_and_sequence_byte();
        code == NACK_VALUE
    }

    /// The NACK after crossing the simulated noisy channel: unchanged at
    /// probability zero, complemented at probability one.
    pub fn simulate_errors(
        &self,
        numerator: u32,
        denominator: u32,
        rng: &mut rand::rngs::ThreadRng,
    ) -> (r: Self)
        requires
            0 < denominator,
            numerator <= denominator,
        ensures
            numerator == 0 ==> r == *self,
            numerator == denominator ==> r.content == !self.content,
    {
        let mut cloned_nack = self.clone();
        proof {
            lemma_low_bits16_step(self.content, 0);
        }
        let mut i: u8 = 0;
        while i < 16
            invariant
                0 < denominator,
                numerator <= denominator,
                i <= 16,
                numerator == 0 ==> cloned_nack == *self,
                numerator == denominator ==> cloned_nack.content == (self.content
                    ^ spec_low_bits16(i as int)),
            decreases 16 - i,
        {
            if crate::packets::random_ratio(rng, numerator, denominator) {
                cloned_nack.flip_bit(i);
            }
            proof {
                if numerator == denominator {
                    lemma_low_bits16_step(self.content, i);
                }
            }
            i += 1;
        }
        proof {
            if numerator == denominator {
                lemma_low_bits16_step(self.content, 0);
            }
        }
        cloned_nack
    }
}

/// A NACK is valid when its code byte equals `NACK_VALUE`.
pub open spec fn spec_nack_is_valid(n: NACK) -> bool {
    (n.content >> 8) as u8 == NACK_VALUE
}

/// An acknowledgment of either kind.
#[derive(Debug, PartialEq, Eq, Structural, Clone, Copy)]
pub enum GenericAcknowledgement {
    ACK(ACK),
    NACK(NACK),
}

/// Validity of an acknowledgment, by its kind.
pub open spec fn spec_generic_acknowledgement_ok(a: GenericAcknowledgement) -> bool {
    match a {
        GenericAcknowledgement::ACK(ack) => spec_ack_is_valid(ack),
        GenericAcknowledgement::NACK(nack) => spec_nack_is_valid(nack),
    }
}

/// What the simulated channel guarantees of an acknowledgment: the kind is
/// kept in every case; a probability of zero returns it unchanged; a
/// probability of one complements its 16-bit content.
pub open spec fn spec_simulated_acknowledgement_ok(
    pre: GenericAcknowledgement,
    post: GenericAcknowledgement,
    numerator: u32,
    denominator: u32,
) -> bool {
    match (pre, post) {
        (GenericAcknowledgement::ACK(a1), GenericAcknowledgement::ACK(a2)) => {
            &&& numerator == 0 ==> a2 == a1
            &&& numerator == denominator ==> a2.content == !a1.content
        },
        (GenericAcknowledgement::NACK(n1), GenericAcknowledgement::NACK(n2)) => {
            &&& numerator == 0 ==> n2 == n1
            &&& numerator == denominator ==> n2.content == !n1.content
        },
        _ => false,
    }
}

impl GenericAcknowledgement {
    /// The acknowledgment after crossing the simulated noisy channel: still
    /// an acknowledgment of the same kind, untouched at probability zero,
    /// complemented at probability one.
    pub fn simulate_errors(
        &self,
        numerator: u32,
        denominator: u32,
        rng: &mut rand::rngs::ThreadRng,
    ) -> (r: Self)
        requires
            0 < denominator,
            numerator <= denominator,
        ensures
            spec_simulated_acknowledgement_ok(*self, r, numerator, denominator),
    {
        match self {
            GenericAcknowledgement::ACK(ack) => GenericAcknowledgement::ACK(
                ack.simulate_errors(numerator, denominator, rng),
            ),
            GenericAcknowledgement::NACK(nack) => GenericAcknowledgement::NACK(
                nack.simulate_errors(numerator, denominator, rng),
            ),
        }
    }

    /// Whether the acknowledgment passes its kind's validity check.
    pub fn is_valid(&self) -> (r: bool)
        ensures
            r == spec_generic_acknowledgement_ok(*self),
    {
        match self {
            GenericAcknowledgement::ACK(ack) => ack.is_valid(),
            GenericAcknowledgement::NACK(nack) => nack.is_valid(),
        }
    }
}

/// The full 10-byte on-wire image of a positive acknowledgment for sequence
/// byte `s`, sent from the endpoint whose IPv4 address is `ip`: code byte,
/// sequence byte, big-endian IPv4, then the big-endian CRC-32 of those six
/// bytes.
pub open spec fn spec_ack_image(s: u8, ip: u32) -> Seq<u8> {
    let head = seq![ACK_VALUE, s] + spec_u32_to_be(ip);
    head + spec_u32_to_be(crc32_of(head))
}

/// Whether a received 10-byte buffer carries a CRC-32 over its first six
/// bytes that matches its last four bytes.
pub open spec fn spec_ack_buf_crc_ok(b: Seq<u8>) -> bool {
    b.len() == 10 && crc32_of(b.take(6)) == crate::bytes_be::spec_u32_from_be(
        b[6],
        b[7],
        b[8],
        b[9],
    )
}

/// Whether a received buffer's first byte is the positive ack-code.
pub open spec fn spec_ack_buf_positive(b: Seq<u8>) -> bool {
    b.len() >= 1 && b[0] == ACK_VALUE
}

/// Builds the clean 10-byte acknowledgment datagram for sequence byte `s`
/// from the endpoint at IPv4 address `ip`.
pub fn build_ack_datagram(s: u8, ip: u32) -> (r: Vec<u8>)
    ensures
        r@ == spec_ack_image(s, ip),
        r@.len() == 10,
{
    let mut head: Vec<u8> = Vec::new();
    head.push(ACK_VALUE);
    head.push(s);
    let ip_bytes = u32_to_be(ip);
    head.extend_from_slice(ip_bytes.as_slice());
    proof {
        assert(head@ =~= seq![ACK_VALUE, s] + spec_u32_to_be(ip));
    }
    let crc = checksum(head.as_slice());
    let crc_bytes = u32_to_be(crc);
    head.extend_from_slice(crc_bytes.as_slice());
    proof {
        assert(head@ =~= spec_ack_image(s, ip));
    }
    head
}

/// The acknowledgment datagram after the simulated noisy channel: built
/// clean, then every bit of the whole 10-byte image — checksum included —
/// flipped independently with probability `numerator / denominator`.
pub fn make_ack_datagram(
    s: u8,
    ip: u32,
    numerator: u32,
    denominator: u32,
    rng: &mut rand::rngs::ThreadRng,
) -> (r: Vec<u8>)
    requires
        0 < denominator,
        numerator <= denominator,
    ensures
        r@.len() == 10,
        numerator == 0 ==> r@ == spec_ack_image(s, ip),
        numerator == denominator ==> forall|j: int|
            0 <= j < 10 ==> r@[j] == !spec_ack_image(s, ip)[j],
{
    let clean = build_ack_datagram(s, ip);
    corrupt_bytes(clean.as_slice(), numerator, denominator, rng)
}

/// A cleanly built acknowledgment passes both receiver-side checks: its CRC
/// matches and its code byte is the positive ack-code.
pub proof fn lemma_ack_image_valid(s: u8, ip: u32)
    ensures
        spec_ack_buf_crc_ok(spec_ack_image(s, ip)),
        spec_ack_buf_positive(spec_ack_image(s, ip)),
{
    let head = seq![ACK_VALUE, s] + spec_u32_to_be(ip);
    let img = spec_ack_image(s, ip);
    assert(img.take(6) =~= head);
    let ck = crc32_of(head);
    assert(img[6] == (ck >> 24) as u8);
    assert(img[7] == ((ck >> 16) & 0xFF) as u8);
    assert(img[8] == ((ck >> 8) & 0xFF) as u8);
    assert(img[9] == (ck & 0xFF) as u8);
    lemma_u32_be_roundtrip(ck);
}

} // verus!

//! Packets of the protocol: the sequence-byte arithmetic shared by frames and
//! acknowledgments, the simulated noisy channel, and a tagged union over the
//! packet kinds.

pub mod acknowledgement;
pub mod frame;

use vstd::prelude::*;

use crate::packets::frame::flip_bit_in_u8;

verus! {

/// The sequence byte carried by frames at even queue positions.
pub const SEQUENCE_ZERO: u8 = 0b0000_0000;

/// The sequence byte carried by frames at odd queue positions.
pub const SEQUENCE_ONE: u8 = 0b1111_1111;

/// The value of the ack-code byte of a positive acknowledgment.
pub const ACK_VALUE: u8 = 0b0000_1100;

/// The value of the ack-code byte of a negative acknowledgment.
pub const NACK_VALUE: u8 = 0b1111_0011;

/// How many of the 8 bits of a byte are set.
pub open spec fn spec_count_ones(b: u8) -> int {
    ((b >> 0u8) & 1u8) + ((b >> 1u8) & 1u8) + ((b >> 2u8) & 1u8) + ((b >> 3u8) & 1u8) + ((b
        >> 4u8) & 1u8) + ((b >> 5u8) & 1u8) + ((b >> 6u8) & 1u8) + ((b >> 7u8) & 1u8)
}

/// The majority-vote correction of a received sequence byte: every honest
/// sequence byte is all zeros or all ones, so whichever bit value is in the
/// majority wins; a tie defaults to all ones.
pub open spec fn spec_correct_sequence(b: u8) -> u8 {
    if spec_count_ones(b) >= 4 {
        SEQUENCE_ONE
    } else {
        SEQUENCE_ZERO
    }
}

/// The opposite of a sequence byte, correcting a corrupted one first.
pub open spec fn spec_flip_sequence(b: u8) -> u8 {
    if b == SEQUENCE_ONE {
        SEQUENCE_ZERO
    } else if b == SEQUENCE_ZERO {
        SEQUENCE_ONE
    } else if spec_count_ones(b) >= 4 {
        SEQUENCE_ZERO
    } else {
        SEQUENCE_ONE
    }
}

/// Corrects a possibly corrupted sequence byte by majority vote over its bits.
pub fn correct_sequence_byte(sequence_byte: u8) -> (r: u8)
    ensures
        r == spec_correct_sequence(sequence_byte),
{
    let b = sequence_byte;
    let ones: u32 = (((b >> 0u8) & 1) as u32) + (((b >> 1u8) & 1) as u32) + (((b >> 2u8)
        & 1) as u32) + (((b >> 3u8) & 1) as u32) + (((b >> 4u8) & 1) as u32) + (((b >> 5u8)
        & 1) as u32) + (((b >> 6u8) & 1) as u32) + (((b >> 7u8) & 1) as u32);
    if ones >= 5 {
        SEQUENCE_ONE
    } else if ones <= 3 {
        SEQUENCE_ZERO
    } else {
        SEQUENCE_ONE
    }
}

/// Flips a sequence byte to its opposite, first correcting it by majority
/// vote if it is neither of the two honest values.
pub fn flip_sequence_byte(sequence_byte: u8) -> (r: u8)
    ensures
        r == spec_flip_sequence(sequence_byte),
{
    if sequence_byte == SEQUENCE_ONE {
        SEQUENCE_ZERO
    } else if sequence_byte == SEQUENCE_ZERO {
        SEQUENCE_ONE
    } else {
        let corrected = correct_sequence_byte(sequence_byte);
        if corrected == SEQUENCE_ONE {
            SEQUENCE_ZERO
        } else {
            SEQUENCE_ONE
        }
    }
}

/// The sequence byte tolerates up to 3 flipped bits: flipping an honest byte
/// gives the opposite honest byte, and any byte within Hamming distance 3 of
/// an honest byte flips to the opposite of that honest byte.
pub proof fn lemma_sequence_byte_tolerates_bit_flips(b: u8)
    ensures
        spec_flip_sequence(SEQUENCE_ZERO) == SEQUENCE_ONE,
        spec_flip_sequence(SEQUENCE_ONE) == SEQUENCE_ZERO,
        spec_count_ones(b) <= 3 ==> spec_flip_sequence(b) == SEQUENCE_ONE,
        spec_count_ones(b) >= 5 ==> spec_flip_sequence(b) == SEQUENCE_ZERO,
{
    assert(spec_count_ones(b) <= 3 ==> b != 0xFFu8) by (bit_vector);
    assert(spec_count_ones(b) >= 5 ==> b != 0x00u8) by (bit_vector);
}

/// The thread-local random generator of the rand crate, declared so that the
/// simulated noisy channel can draw from it. Opaque: nothing is known of a
/// value of it.
#[verifier::external_type_specification]
#[verifier::external_body]
pub struct ExThreadRng(rand::rngs::ThreadRng);

/// Draws one biased coin from the thread-local generator.
///
/// Relies on rand's `RngExt::random_ratio`: the result is `true` with
/// probability `numerator / denominator`; it is guaranteed `false` when the
/// numerator is 0 and guaranteed `true` when numerator equals denominator. It
/// panics only when the denominator is 0 or the numerator exceeds it, which
/// the precondition rules out.
#[verifier::external_body]
pub(crate) fn random_ratio(
    rng: &mut rand::rngs::ThreadRng,
    numerator: u32,
    denominator: u32,
) -> (r: bool)
    requires
        0 < denominator,
        numerator <= denominator,
    ensures
        numerator == 0 ==> r == false,
        numerator == denominator ==> r == true,
{
    rand::RngExt::random_ratio(rng, numerator, denominator)
}

/// The byte whose `i` lowest bits are set.
pub open spec fn spec_low_bits(i: int) -> u8 {
    if i <= 0 {
        0x00
    } else if i == 1 {
        0x01
    } else if i == 2 {
        0x03
    } else if i == 3 {
        0x07
    } else if i == 4 {
        0x0F
    } else if i == 5 {
        0x1F
    } else if i == 6 {
        0x3F
    } else if i == 7 {
        0x7F
    } else {
        0xFF
    }
}

/// The 16-bit word whose `i` lowest bits are set.
pub open spec fn spec_low_bits16(i: int) -> u16 {
    if i <= 0 {
        0x0000
    } else if i == 1 {
        0x0001
    } else if i == 2 {
        0x0003
    } else if i == 3 {
        0x0007
    } else if i == 4 {
        0x000F
    } else if i == 5 {
        0x001F
    } else if i == 6 {
        0x003F
    } else if i == 7 {
        0x007F
    } else if i == 8 {
        0x00FF
    } else if i == 9 {
        0x01FF
    } else if i == 10 {
        0x03FF
    } else if i == 11 {
        0x07FF
    } else if i == 12 {
        0x0FFF
    } else if i == 13 {
        0x1FFF
    } else if i == 14 {
        0x3FFF
    } else if i == 15 {
        0x7FFF
    } else {
        0xFFFF
    }
}

/// Flipping bits 0 through 15 of a word one at a time accumulates the
/// low-bits mask, and all 16 flips together complement the word.
pub proof fn lemma_low_bits16_step(c: u16, i: u8)
    by (bit_vector)
    requires
        i < 16,
    ensures
        c ^ spec_low_bits16(0) == c,
        (c ^ spec_low_bits16(i as int)) ^ (1u16 << i) == c ^ spec_low_bits16(i as int + 1),
        c ^ spec_low_bits16(16) == !c,
{
}

/// Flipping bits 0 through 7 of a byte one at a time accumulates the
/// low-bits mask, and all 8 flips together complement the byte.
pub proof fn lemma_low_bits_step(c: u8, i: u8)
    by (bit_vector)
    requires
        i < 8,
    ensures
        c ^ spec_low_bits(0) == c,
        (c ^ spec_low_bits(i as int)) ^ (1u8 << i) == c ^ spec_low_bits(i as int + 1),
        c ^ spec_low_bits(8) == !c,
{
}

/// The bytes after crossing a simulated noisy channel: each bit of each byte
/// is flipped independently with probability `numerator / denominator`.
/// A probability of zero leaves the bytes unchanged; a probability of one
/// flips every bit.
pub fn corrupt_bytes(
    content: &[u8],
    numerator: u32,
    denominator: u32,
    rng: &mut rand::rngs::ThreadRng,
) -> (r: Vec<u8>)
    requires
        0 < denominator,
        numerator <= denominator,
    ensures
        r@.len() == content@.len(),
        numerator == 0 ==> r@ == content@,
        numerator == denominator ==> forall|j: int|
            0 <= j < r@.len() ==> r@[j] == !content@[j],
{
    let mut out: Vec<u8> = Vec::new();
    let mut idx: usize = 0;
    while idx < content.len()
        invariant
            0 < denominator,
            numerator <= denominator,
            idx <= content@.len(),
            out@.len() == idx,
            numerator == 0 ==> out@ == content@.take(idx as int),
            numerator == denominator ==> forall|j: int|
                0 <= j < idx ==> out@[j] == !content@[j],
        decreases content@.len() - idx,
    {
        let mut byte = content[idx];
        proof {
            lemma_low_bits_step(content@[idx as int], 0);
        }
        let mut i: u8 = 0;
        while i < 8
            invariant
                0 < denominator,
                numerator <= denominator,
                idx < content@.len(),
                i <= 8,
                numerator == 0 ==> byte == content@[idx as int],
                numerator == denominator ==> byte == (content@[idx as int] ^ spec_low_bits(
                    i as int,
                )),
            decreases 8 - i,
        {
            let should_flip = random_ratio(rng, numerator, denominator);
            if should_flip {
                byte = flip_bit_in_u8(&byte, i);
            }
            proof {
                if numerator == denominator {
                    lemma_low_bits_step(content@[idx as int], i);
                }
            }
            i += 1;
        }
        proof {
            if numerator == denominator {
                lemma_low_bits_step(content@[idx as int], 0);
            }
        }
        out.push(byte);
        proof {
            if numerator == 0 {
                assert(out@ =~= content@.take(idx as int + 1));
            }
        }
        idx += 1;
    }
    proof {
        if numerator == 0 {
            assert(content@.take(content@.len() as int) =~= content@);
        }
    }
    out
}

/// A packet of either kind: a data frame or an acknowledgment.
#[derive(Debug, PartialEq)]
pub enum GenericPacket {
    Frame(frame::Frame),
    Acknowledgement(acknowledgement::GenericAcknowledgement),
}

/// Validity of a generic packet, by its kind.
pub open spec fn spec_generic_packet_ok(p: GenericPacket) -> bool {
    match p {
        GenericPacket::Frame(f) => frame::spec_frame_ok(f.content@),
        GenericPacket::Acknowledgement(a) => acknowledgement::spec_generic_acknowledgement_ok(a),
    }
}

/// What the simulated channel guarantees of a packet: the kind is kept in
/// every case; a probability of zero returns the packet unchanged; a
/// probability of one complements every byte of a frame's image, or the
/// 16-bit content of an acknowledgment.
pub open spec fn spec_simulated_packet_ok(
    pre: GenericPacket,
    post: GenericPacket,
    numerator: u32,
    denominator: u32,
) -> bool {
    match (pre, post) {
        (GenericPacket::Frame(f1), GenericPacket::Frame(f2)) => {
            &&& f2.content@.len() == f1.content@.len()
            &&& numerator == 0 ==> f2.content@ == f1.content@
            &&& numerator == denominator ==> forall|j: int|
                0 <= j < f2.content@.len() ==> f2.content@[j] == !f1.content@[j]
        },
        (GenericPacket::Acknowledgement(a1), GenericPacket::Acknowledgement(a2)) => {
            acknowledgement::spec_simulated_acknowledgement_ok(a1, a2, numerator, denominator)
        },
        _ => false,
    }
}

impl GenericPacket {
    /// The packet after crossing the simulated noisy channel: still a packet
    /// of the same kind, untouched at probability zero, bitwise complemented
    /// at probability one.
    pub fn simulate_errors(
        &self,
        numerator: u32,
        denominator: u32,
        rng: &mut rand::rngs::ThreadRng,
    ) -> (r: Self)
        requires
            0 < denominator,
            numerator <= denominator,
        ensures
            spec_simulated_packet_ok(*self, r, numerator, denominator),
    {
        match self {
            GenericPacket::Frame(f) => GenericPacket::Frame(
                f.simulate_errors(numerator, denominator, rng),
            ),
            GenericPacket::Acknowledgement(a) => GenericPacket::Acknowledgement(
                a.simulate_errors(numerator, denominator, rng),
            ),
        }
    }

    /// Whether the packet passes its kind's validity check.
    pub fn is_valid(&self) -> (r: bool)
        ensures
            r == spec_generic_packet_ok(*self),
    {
        match self {
            GenericPacket::Frame(f) => f.is_valid(),
            GenericPacket::Acknowledgement(a) => a.is_valid(),
        }
    }
}

} // verus!

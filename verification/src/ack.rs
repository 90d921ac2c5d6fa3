//! A minimal acknowledgment variant: a single code byte, no sequence number
//! and no checksum of its own.

use vstd::prelude::*;

use crate::packets::ACK_VALUE;

verus! {

/// A one-byte positive acknowledgment.
#[derive(Debug, PartialEq, Eq, Structural, Clone, Copy)]
pub struct ACK {
    pub content: u8,
}

impl ACK {
    /// An ACK carrying the positive ack-code.
    pub fn new() -> (r: Self)
        ensures
            r.content == ACK_VALUE,
    {
        Self { content: ACK_VALUE }
    }

    /// Flips one bit of the packet; indices outside the 8 bits do nothing.
    pub fn flip_bit(&mut self, bit_index: u8)
        ensures
            bit_index < 8 ==> final(self).content == (old(self).content ^ (1u8 << bit_index)),
            bit_index >= 8 ==> final(self).content == old(self).content,
    {
        if bit_index < 8 {
            self.content = self.content ^ (1u8 << bit_index);
        }
    }

    /// Whether the byte still equals the positive ack-code.
    pub fn is_valid(&self) -> (r: bool)
        ensures
            r == (self.content == ACK_VALUE),
    {
        self.content == ACK_VALUE
    }

    /// A fresh ACK after the simulated noisy channel: each of its 8 bits
    /// flipped independently with probability `numerator / denominator`.
    /// A probability of zero leaves the code byte intact; a probability of
    /// one complements it. The starting point is a fresh ACK, not `self`,
    /// whose own state plays no part.
    pub fn simulate_errors(
        &self,
        numerator: u32,
        denominator: u32,
        rng: &mut rand::rngs::ThreadRng,
    ) -> (r: Self)
        requires
            0 < denominator,
            numerator <= denominator,
        ensures
            numerator == 0 ==> r.content == ACK_VALUE,
            numerator == denominator ==> r.content == !ACK_VALUE,
    {
        let mut cloned_ack = Self::new();
        proof {
            crate::packets::lemma_low_bits_step(ACK_VALUE, 0);
        }
        let mut i: u8 = 0;
        while i < 8
            invariant
                0 < denominator,
                numerator <= denominator,
                i <= 8,
                numerator == 0 ==> cloned_ack.content == ACK_VALUE,
                numerator == denominator ==> cloned_ack.content == (ACK_VALUE
                    ^ crate::packets::spec_low_bits(i as int)),
            decreases 8 - i,
        {
            if crate::packets::random_ratio(rng, numerator, denominator) {
                cloned_ack.flip_bit(i);
            }
            proof {
                if numerator == denominator {
                    crate::packets::lemma_low_bits_step(ACK_VALUE, i);
                }
            }
            i += 1;
        }
        proof {
            if numerator == denominator {
                crate::packets::lemma_low_bits_step(ACK_VALUE, 0);
            }
        }
        cloned_ack
    }
}

} // verus!

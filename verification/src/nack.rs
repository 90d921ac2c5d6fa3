//! A minimal negative-acknowledgment variant: a single code byte.

use vstd::prelude::*;

use crate::packets::NACK_VALUE;

verus! {

/// A one-byte negative acknowledgment.
#[derive(Debug, PartialEq, Eq, Structural, Clone, Copy)]
pub struct NACK {
    pub content: u8,
}

impl NACK {
    /// A NACK carrying the negative ack-code.
    pub fn new() -> (r: Self)
        ensures
            r.content == NACK_VALUE,
    {
        Self { content: NACK_VALUE }
    }

    /// Flips one bit of the packet; indices outside the 8 bits do nothing.
    pub fn flip_bit(&mut self, bit_index: u8)
        ensures
            bit_index < 8 ==> final(self).content == (old(self).content ^ (1u8 << bit_index)),
            bit_index >= 8 ==> final(self).content == old(self).content,
    {
        if bit_index < 8 {
            self.content = self.content ^ (1u8 << bit_index);
        }
    }

    /// Whether the byte still equals the negative ack-code.
    pub fn is_valid(&self) -> (r: bool)
        ensures
            r == (self.content == NACK_VALUE),
    {
        self.content == NACK_VALUE
    }

    /// A fresh NACK after the simulated noisy channel: each of its 8 bits
    /// flipped independently with probability `numerator / denominator`.
    /// A probability of zero leaves the code byte intact; a probability of
    /// one complements it. The starting point is a fresh NACK, not `self`,
    /// whose own state plays no part.
    pub fn simulate_errors(
        &self,
        numerator: u32,
        denominator: u32,
        rng: &mut rand::rngs::ThreadRng,
    ) -> (r: Self)
        requires
            0 < denominator,
            numerator <= denominator,
        ensures
            numerator == 0 ==> r.content == NACK_VALUE,
            numerator == denominator ==> r.content == !NACK_VALUE,
    {
        let mut cloned_nack = Self::new();
        proof {
            crate::packets::lemma_low_bits_step(NACK_VALUE, 0);
        }
        let mut i: u8 = 0;
        while i < 8
            invariant
                0 < denominator,
                numerator <= denominator,
                i <= 8,
                numerator == 0 ==> cloned_nack.content == NACK_VALUE,
                numerator == denominator ==> cloned_nack.content == (NACK_VALUE
                    ^ crate::packets::spec_low_bits(i as int)),
            decreases 8 - i,
        {
            if crate::packets::random_ratio(rng, numerator, denominator) {
                cloned_nack.flip_bit(i);
            }
            proof {
                if numerator == denominator {
                    crate::packets::lemma_low_bits_step(NACK_VALUE, i);
                }
            }
            i += 1;
        }
        proof {
            if numerator == denominator {
                crate::packets::lemma_low_bits_step(NACK_VALUE, 0);
            }
        }
        cloned_nack
    }
}

} // verus!

//! The rule by which pink noise after Voss and McCartney renews its octaves.

use vstd::prelude::*;
use vstd::arithmetic::power2::{lemma_pow2_pos, lemma_pow2_strictly_increases, pow2};
use vstd::bits::{lemma_u64_pow2_no_overflow, lemma_u64_shl_is_mul};

verus! {

/// Whether the call with the number `counter` renews the octave `octave`:
/// the number is a multiple of two to the power of the octave.
pub open spec fn is_renewed(counter: u64, octave: usize) -> bool {
    counter as int % pow2(octave as nat) as int == 0
}

/// Whether the call with the number `counter` renews the octave `octave`.
pub fn renews_octave(counter: u64, octave: usize) -> (r: bool)
    ensures
        r == is_renewed(counter, octave),
{
    if octave >= 64 {
        proof {
            lemma_pow2_pos(octave as nat);
            vstd::arithmetic::power2::lemma2_to64();
            if octave > 64 {
                lemma_pow2_strictly_increases(64, octave as nat);
            }
            vstd::arithmetic::div_mod::lemma_small_mod(counter as nat, pow2(octave as nat));
        }
        counter == 0
    } else {
        let shift = octave as u64;
        proof {
            lemma_pow2_pos(octave as nat);
            lemma_u64_pow2_no_overflow(octave as nat);
            lemma_u64_shl_is_mul(1, shift);
        }
        counter % (1u64 << shift) == 0
    }
}

/// Every octave is renewed by the first call, and the lowest octave by every call.
pub proof fn lemma_renewal(counter: u64, octave: usize)
    ensures
        is_renewed(0, octave),
        is_renewed(counter, 0),
{
    lemma_pow2_pos(octave as nat);
    vstd::arithmetic::power2::lemma2_to64();
}

} // verus!

//! Classification of equilibrium points by the eigenvalues of the linearised system.

use vstd::prelude::*;
use crate::number::Number;

verus! {

/// How a system behaves near an equilibrium point.
#[derive(Debug, Clone, Copy, PartialEq, Eq, Structural)]
pub enum StabilityType {
    /// All eigenvalues have negative real parts.
    Stable,
    /// At least one eigenvalue has a positive real part.
    Unstable,
    /// No eigenvalue has a positive real part, and at least one has real part zero.
    MarginallyStable,
    /// Complex eigenvalues with imaginary parts that are not zero.
    Oscillatory,
    /// Cannot be determined.
    Unknown,
}

/// The bits of 1e-8, below which a real part counts as zero.
pub const SMALL_BITS: u64 = 0x3e45_798e_e230_8c3a;

/// The bits of -1e-8.
pub const MINUS_SMALL_BITS: u64 = 0xbe45_798e_e230_8c3a;

/// The bits of 1e-10, above which an imaginary part counts.
pub const TINY_BITS: u64 = 0x3ddb_7cdf_d9d7_bdbb;

/// The bits of minus infinity.
pub const MINUS_INFINITY_BITS: u64 = 0xfff0_0000_0000_0000;

/// The largest real part among the first `count` eigenvalues; minus infinity
/// where there is none. An eigenvalue is a real part and an imaginary part.
pub open spec fn largest_real(eigenvalues: Seq<(Number, Number)>, count: int) -> Number
    decreases count,
{
    if count <= 0 {
        Number { bits: MINUS_INFINITY_BITS }
    } else {
        largest_real(eigenvalues, count - 1).larger(eigenvalues[count - 1].0)
    }
}

/// Whether the real part of the eigenvalue counts as zero.
pub open spec fn is_zero_mode(eigenvalue: (Number, Number)) -> bool {
    eigenvalue.0.magnitude_of().below(Number { bits: SMALL_BITS })
}

/// Whether the eigenvalue oscillates: its imaginary part counts.
pub open spec fn oscillates(eigenvalue: (Number, Number)) -> bool {
    (Number { bits: TINY_BITS }).below(eigenvalue.1.magnitude_of())
}

/// Whether one of the eigenvalues has a real part that counts as zero.
pub open spec fn has_zero_mode(eigenvalues: Seq<(Number, Number)>) -> bool {
    exists|i: int| 0 <= i < eigenvalues.len() && is_zero_mode(#[trigger] eigenvalues[i])
}

/// Whether one of the eigenvalues oscillates.
pub open spec fn has_oscillation(eigenvalues: Seq<(Number, Number)>) -> bool {
    exists|i: int| 0 <= i < eigenvalues.len() && oscillates(#[trigger] eigenvalues[i])
}

/// The kind of stability that the eigenvalues tell: with a largest real part
/// above 1e-8 the point is unstable, below -1e-8 stable, and oscillatory in
/// either case where an eigenvalue oscillates; between the two it is
/// marginally stable where a real part counts as zero, and unknown else.
pub open spec fn classified(eigenvalues: Seq<(Number, Number)>) -> StabilityType {
    let top = largest_real(eigenvalues, eigenvalues.len() as int);
    if (Number { bits: SMALL_BITS }).below(top) {
        if has_oscillation(eigenvalues) {
            StabilityType::Oscillatory
        } else {
            StabilityType::Unstable
        }
    } else if top.below(Number { bits: MINUS_SMALL_BITS }) {
        if has_oscillation(eigenvalues) {
            StabilityType::Oscillatory
        } else {
            StabilityType::Stable
        }
    } else if has_zero_mode(eigenvalues) {
        StabilityType::MarginallyStable
    } else {
        StabilityType::Unknown
    }
}

/// The largest real part among the eigenvalues; minus infinity where there is none.
pub fn largest_real_part(eigenvalues: &Vec<(Number, Number)>) -> (r: Number)
    ensures
        r == largest_real(eigenvalues@, eigenvalues@.len() as int),
{
    let mut top = Number::from_bits(MINUS_INFINITY_BITS);
    let mut i: usize = 0;
    while i < eigenvalues.len()
        invariant
            i <= eigenvalues@.len(),
            top == largest_real(eigenvalues@, i as int),
        decreases eigenvalues@.len() - i,
    {
        top = top.max(eigenvalues[i].0);
        i += 1;
    }
    top
}

/// Whether one of the eigenvalues oscillates.
pub fn has_oscillations(eigenvalues: &Vec<(Number, Number)>) -> (r: bool)
    ensures
        r == has_oscillation(eigenvalues@),
{
    let tiny = Number::from_bits(TINY_BITS);
    let mut i: usize = 0;
    while i < eigenvalues.len()
        invariant
            i <= eigenvalues@.len(),
            tiny.bits == TINY_BITS,
            forall|k: int| 0 <= k < i ==> !oscillates(#[trigger] eigenvalues@[k]),
        decreases eigenvalues@.len() - i,
    {
        if eigenvalues[i].1.abs().gt(&tiny) {
            return true;
        }
        i += 1;
    }
    false
}

/// Whether one of the eigenvalues has a real part that counts as zero.
pub fn has_zero_modes(eigenvalues: &Vec<(Number, Number)>) -> (r: bool)
    ensures
        r == has_zero_mode(eigenvalues@),
{
    let small = Number::from_bits(SMALL_BITS);
    let mut i: usize = 0;
    while i < eigenvalues.len()
        invariant
            i <= eigenvalues@.len(),
            small.bits == SMALL_BITS,
            forall|k: int| 0 <= k < i ==> !is_zero_mode(#[trigger] eigenvalues@[k]),
        decreases eigenvalues@.len() - i,
    {
        if eigenvalues[i].0.abs().lt(&small) {
            return true;
        }
        i += 1;
    }
    false
}

/// The kind of stability that the eigenvalues tell.
pub fn classify_stability(eigenvalues: &Vec<(Number, Number)>) -> (r: StabilityType)
    ensures
        r == classified(eigenvalues@),
{
    let max_real = largest_real_part(eigenvalues);
    if max_real.gt(&Number::from_bits(SMALL_BITS)) {
        if has_oscillations(eigenvalues) {
            StabilityType::Oscillatory
        } else {
            StabilityType::Unstable
        }
    } else if max_real.lt(&Number::from_bits(MINUS_SMALL_BITS)) {
        if has_oscillations(eigenvalues) {
            StabilityType::Oscillatory
        } else {
            StabilityType::Stable
        }
    } else if has_zero_modes(eigenvalues) {
        StabilityType::MarginallyStable
    } else {
        StabilityType::Unknown
    }
}

} // verus!

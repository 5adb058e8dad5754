//! The settings of a parameter search and the bounds that keep it in range.

use vstd::prelude::*;
use vstd::string::*;
use crate::number::Number;
use crate::simulation::engine::IntegrationMethod;

verus! {

/// The bits of 1e-6.
pub const MILLIONTH_BITS: u64 = 0x3eb0_c6f7_a0b5_ed8d;

/// How a search is run.
#[derive(Debug, Clone)]
pub struct OptimizationConfig {
    /// The number of iterations after which the search gives up.
    pub max_iterations: usize,
    /// The change of the objective below which the search has converged.
    pub tolerance: Number,
    pub integration_method: IntegrationMethod,
}

impl Default for OptimizationConfig {
    /// A hundred iterations, a tolerance of 1e-6, RK4.
    fn default() -> (r: OptimizationConfig)
        ensures
            r.max_iterations == 100,
            r.tolerance.bits == MILLIONTH_BITS,
            r.integration_method == IntegrationMethod::RK4,
    {
        OptimizationConfig {
            max_iterations: 100,
            tolerance: Number::from_bits(MILLIONTH_BITS),
            integration_method: IntegrationMethod::RK4,
        }
    }
}

/// The range in which a parameter is searched.
#[derive(Debug, Clone)]
pub struct ParameterBounds {
    pub name: String,
    pub min: Number,
    pub max: Number,
}

impl ParameterBounds {
    /// The value brought into the range: raised to the lower bound, then
    /// lowered to the upper bound.
    pub open spec fn clamped(&self, value: Number) -> Number {
        value.larger(self.min).smaller(self.max)
    }

    /// Whether the value lies in the range, the bounds included.
    pub open spec fn includes(&self, value: Number) -> bool {
        self.min.at_most(value) && value.at_most(self.max)
    }

    /// The range from `min` to `max` for the parameter called `name`.
    pub fn new(name: &str, min: Number, max: Number) -> (r: ParameterBounds)
        ensures
            r.name@ == name@,
            r.min == min,
            r.max == max,
    {
        ParameterBounds { name: String::from_str(name), min, max }
    }

    /// Brings a value into the range.
    pub fn clamp(&self, value: Number) -> (r: Number)
        ensures
            r == self.clamped(value),
    {
        value.max(self.min).min(self.max)
    }

    /// Whether the value lies in the range.
    pub fn contains(&self, value: Number) -> (r: bool)
        ensures
            r == self.includes(value),
    {
        value.ge(&self.min) && value.le(&self.max)
    }
}

/// Where the bounds are numbers in their order, what is brought into the
/// range lies in it, and what lies in it stays as it is, up to the sign of zero.
pub proof fn lemma_clamped_is_included(bounds: ParameterBounds, value: Number)
    requires
        bounds.min.at_most(bounds.max),
    ensures
        bounds.includes(bounds.clamped(value)),
        bounds.includes(value) ==> bounds.clamped(value).same(value),
{
}

} // verus!

//! The integrators: their settings, and the decisions they take between the
//! evaluations of a step.

use vstd::prelude::*;
use crate::number::Number;

verus! {

/// Forward Euler: one evaluation at the start of the step.
#[derive(Debug, Clone, Copy, PartialEq, Eq)]
pub struct EulerIntegrator;

/// The classical Runge-Kutta method of order four.
#[derive(Debug, Clone, Copy, PartialEq, Eq)]
pub struct RK4Integrator;

/// Heun's method: a predictor and a corrector.
#[derive(Debug, Clone, Copy, PartialEq, Eq)]
pub struct HeunIntegrator;

/// The bits of 1e-6.
pub const MICRO_BITS: u64 = 0x3eb0_c6f7_a0b5_ed8d;

/// The bits of 1e-8.
pub const TEN_NANO_BITS: u64 = 0x3e45_798e_e230_8c3a;

/// The bits of 1e-10.
pub const TENTH_NANO_BITS: u64 = 0x3ddb_7cdf_d9d7_bdbb;

/// The bits of 0.9.
pub const NINE_TENTHS_BITS: u64 = 0x3fec_cccc_cccc_cccd;

/// Backward Euler, solved by fixed-point iteration.
#[derive(Debug, Clone, Copy, PartialEq, Eq)]
pub struct BackwardEulerIntegrator {
    /// The most iterations of the implicit solve.
    pub max_iterations: usize,
    /// The change below which the solve has converged.
    pub tolerance: Number,
}

impl Default for BackwardEulerIntegrator {
    /// Twenty iterations and a tolerance of 1e-6.
    fn default() -> (r: BackwardEulerIntegrator)
        ensures
            r.max_iterations == 20,
            r.tolerance.bits == MICRO_BITS,
    {
        BackwardEulerIntegrator { max_iterations: 20, tolerance: Number::from_bits(MICRO_BITS) }
    }
}

/// What to do after an iteration of the implicit solve.
#[derive(Debug, Clone, Copy, PartialEq, Eq, Structural)]
pub enum SolveVerdict {
    /// The solve has converged: the step ends with the state just computed.
    Converged,
    /// Iterate once more from the state just computed.
    Again,
    /// The iterations are used up: the step ends with the state just computed,
    /// and a warning.
    GaveUp,
}

impl BackwardEulerIntegrator {
    pub fn new(max_iterations: usize, tolerance: Number) -> (r: BackwardEulerIntegrator)
        ensures
            r.max_iterations == max_iterations,
            r.tolerance == tolerance,
    {
        BackwardEulerIntegrator { max_iterations, tolerance }
    }

    /// What to do after iteration number `iteration` (counted from zero) in
    /// which the largest change of a stock was `max_change`: the solve has
    /// converged when the change is below the tolerance and this is not the
    /// first iteration; else it goes on while iterations are left.
    pub fn after_iteration(&self, iteration: usize, max_change: Number) -> (r: SolveVerdict)
        requires
            iteration < self.max_iterations,
        ensures
            r == if max_change.below(self.tolerance) && iteration > 0 {
                SolveVerdict::Converged
            } else if iteration + 1 < self.max_iterations {
                SolveVerdict::Again
            } else {
                SolveVerdict::GaveUp
            },
    {
        if max_change.lt(&self.tolerance) && iteration > 0 {
            SolveVerdict::Converged
        } else if iteration + 1 < self.max_iterations {
            SolveVerdict::Again
        } else {
            SolveVerdict::GaveUp
        }
    }
}

/// The Dormand-Prince method of orders five and four with adaptive steps.
#[derive(Debug, Clone, Copy, PartialEq, Eq)]
pub struct RK45Integrator {
    /// Relative tolerance.
    pub rtol: Number,
    /// Absolute tolerance.
    pub atol: Number,
    /// The smallest step.
    pub min_step: Number,
    /// The largest step.
    pub max_step: Number,
    /// The factor by which a new step is kept below the estimate.
    pub safety_factor: Number,
}

impl Default for RK45Integrator {
    /// Tolerances 1e-6 and 1e-8, steps between 1e-10 and 1, safety factor 0.9.
    fn default() -> (r: RK45Integrator)
        ensures
            r.rtol.bits == MICRO_BITS,
            r.atol.bits == TEN_NANO_BITS,
            r.min_step.bits == TENTH_NANO_BITS,
            r.max_step.bits == crate::number::ONE_BITS,
            r.safety_factor.bits == NINE_TENTHS_BITS,
    {
        RK45Integrator {
            rtol: Number::from_bits(MICRO_BITS),
            atol: Number::from_bits(TEN_NANO_BITS),
            min_step: Number::from_bits(TENTH_NANO_BITS),
            max_step: Number::one(),
            safety_factor: Number::from_bits(NINE_TENTHS_BITS),
        }
    }
}

/// The most attempts at one adaptive step.
pub const MAX_ATTEMPTS: usize = 10;

/// What to do after an attempt at an adaptive step.
#[derive(Debug, Clone, Copy, PartialEq, Eq)]
pub enum AttemptVerdict {
    /// The error is small enough: the step is taken with the size attempted.
    Accept,
    /// Try again from the same state with this smaller step.
    Retry(Number),
    /// The next step would be below the smallest step: the step fails.
    StepTooSmall,
    /// The attempts are used up: the step fails.
    Exhausted,
}

impl RK45Integrator {
    /// The default settings with the given tolerances.
    pub fn new(rtol: Number, atol: Number) -> (r: RK45Integrator)
        ensures
            r.rtol == rtol,
            r.atol == atol,
            r.min_step.bits == TENTH_NANO_BITS,
            r.max_step.bits == crate::number::ONE_BITS,
            r.safety_factor.bits == NINE_TENTHS_BITS,
    {
        RK45Integrator {
            rtol,
            atol,
            min_step: Number::from_bits(TENTH_NANO_BITS),
            max_step: Number::one(),
            safety_factor: Number::from_bits(NINE_TENTHS_BITS),
        }
    }

    pub fn with_step_limits(self, min_step: Number, max_step: Number) -> (r: RK45Integrator)
        ensures
            r == (RK45Integrator { min_step, max_step, ..self }),
    {
        RK45Integrator { min_step, max_step, ..self }
    }

    /// The size of the first attempt at a step of size `dt`: not above the
    /// largest step.
    pub fn first_step(&self, dt: Number) -> (r: Number)
        ensures
            r == dt.smaller(self.max_step),
    {
        dt.min(self.max_step)
    }

    /// A proposed step size brought between the smallest and the largest step.
    pub fn clamp_step(&self, step: Number) -> (r: Number)
        ensures
            r == step.larger(self.min_step).smaller(self.max_step),
    {
        step.max(self.min_step).min(self.max_step)
    }

    /// What to do after attempt number `attempt` (counted from zero) whose
    /// normalised error was `error` and which proposes `next_step` as the next
    /// step size: accept where the error is at most one; else fail where the
    /// next step is below the smallest step or no attempt is left; else retry.
    pub fn after_attempt(&self, attempt: usize, error: Number, next_step: Number) -> (r:
        AttemptVerdict)
        requires
            attempt < MAX_ATTEMPTS,
        ensures
            r == if error.at_most(Number { bits: crate::number::ONE_BITS }) {
                AttemptVerdict::Accept
            } else if next_step.below(self.min_step) {
                AttemptVerdict::StepTooSmall
            } else if attempt + 1 < MAX_ATTEMPTS {
                AttemptVerdict::Retry(next_step)
            } else {
                AttemptVerdict::Exhausted
            },
    {
        if error.le(&Number::one()) {
            AttemptVerdict::Accept
        } else if next_step.lt(&self.min_step) {
            AttemptVerdict::StepTooSmall
        } else if attempt + 1 < MAX_ATTEMPTS {
            AttemptVerdict::Retry(next_step)
        } else {
            AttemptVerdict::Exhausted
        }
    }
}

/// The most passes over the auxiliaries in one evaluation.
pub const MAX_PASSES: usize = 20;

/// The number of first passes in which a failed evaluation is put up with,
/// since it may only mean that an auxiliary it depends on has no value yet.
pub const TOLERATED_PASSES: usize = 5;

/// What to do after a pass over the auxiliaries.
#[derive(Debug, Clone, Copy, PartialEq, Eq, Structural)]
pub enum PassVerdict {
    /// No value changed and nothing failed: the values stand.
    Settled,
    /// Go over the auxiliaries once more.
    Again,
    /// The passes are used up: the last values stand.
    GaveUp,
    /// An evaluation failed in a pass in which that is not put up with: the
    /// evaluation fails with the first error of the pass.
    Failed,
}

/// What to do after pass number `pass` (counted from zero), given whether a
/// value changed in it by more than the tolerance and whether an evaluation failed.
pub fn after_pass(pass: usize, changed: bool, failed: bool) -> (r: PassVerdict)
    requires
        pass < MAX_PASSES,
    ensures
        r == if failed && pass >= TOLERATED_PASSES {
            PassVerdict::Failed
        } else if !changed && !failed {
            PassVerdict::Settled
        } else if pass + 1 < MAX_PASSES {
            PassVerdict::Again
        } else {
            PassVerdict::GaveUp
        },
{
    if failed && pass >= TOLERATED_PASSES {
        PassVerdict::Failed
    } else if !changed && !failed {
        PassVerdict::Settled
    } else if pass + 1 < MAX_PASSES {
        PassVerdict::Again
    } else {
        PassVerdict::GaveUp
    }
}

/// Whether an evaluation that failed in pass number `pass` ends the evaluation.
pub fn is_fatal_in(pass: usize) -> (r: bool)
    ensures
        r == (pass >= TOLERATED_PASSES),
{
    pass >= TOLERATED_PASSES
}

} // verus!

//! The function library of the expression language: which names are functions,
//! how many arguments each takes, on which arguments it is defined, and the
//! tests on time that the domain functions make.

use vstd::prelude::*;
use vstd::string::*;
use crate::model::expression::{printed_all, tree_views, Expression, Operator};
use crate::model::scan::{matches_word, to_chars};
use crate::number::{Number, ONE_BITS};
use crate::text::{join, joined};

verus! {

/// The functions of the language.
#[derive(Debug, Clone, Copy, PartialEq, Eq, Hash, Structural)]
pub enum Builtin {
    Min,
    Max,
    Abs,
    Sqrt,
    Exp,
    Ln,
    Log,
    Log10,
    Sin,
    Cos,
    Tan,
    Asin,
    Acos,
    Atan,
    Floor,
    Ceil,
    Round,
    Pow,
    Modulo,
    Pulse,
    Step,
    Ramp,
    Time,
    Delay1,
    Smooth,
    Delay3,
    DelayP,
    WithLookup,
    Random,
    Uniform,
    Normal,
    LogNormal,
    Poisson,
}

/// Whether `name` reads `upper`, where each letter may also be the one at the
/// same place in `lower`.
pub open spec fn names_match(name: Seq<char>, upper: Seq<char>, lower: Seq<char>) -> bool {
    name.len() == upper.len() && upper.len() == lower.len() && matches_word(name, 0, upper, lower)
}

/// The function that a name stands for, whatever the case of its letters.
pub open spec fn builtin_named(name: Seq<char>) -> Option<Builtin> {
    if names_match(name, "MIN"@, "min"@) {
        Some(Builtin::Min)
    } else if names_match(name, "MAX"@, "max"@) {
        Some(Builtin::Max)
    } else if names_match(name, "ABS"@, "abs"@) {
        Some(Builtin::Abs)
    } else if names_match(name, "SQRT"@, "sqrt"@) {
        Some(Builtin::Sqrt)
    } else if names_match(name, "EXP"@, "exp"@) {
        Some(Builtin::Exp)
    } else if names_match(name, "LN"@, "ln"@) {
        Some(Builtin::Ln)
    } else if names_match(name, "LOG"@, "log"@) {
        Some(Builtin::Log)
    } else if names_match(name, "LOG10"@, "log10"@) {
        Some(Builtin::Log10)
    } else if names_match(name, "SIN"@, "sin"@) {
        Some(Builtin::Sin)
    } else if names_match(name, "COS"@, "cos"@) {
        Some(Builtin::Cos)
    } else if names_match(name, "TAN"@, "tan"@) {
        Some(Builtin::Tan)
    } else if names_match(name, "ASIN"@, "asin"@) {
        Some(Builtin::Asin)
    } else if names_match(name, "ACOS"@, "acos"@) {
        Some(Builtin::Acos)
    } else if names_match(name, "ATAN"@, "atan"@) {
        Some(Builtin::Atan)
    } else if names_match(name, "FLOOR"@, "floor"@) {
        Some(Builtin::Floor)
    } else if names_match(name, "CEIL"@, "ceil"@) {
        Some(Builtin::Ceil)
    } else if names_match(name, "ROUND"@, "round"@) {
        Some(Builtin::Round)
    } else if names_match(name, "POW"@, "pow"@) {
        Some(Builtin::Pow)
    } else if names_match(name, "MODULO"@, "modulo"@) || names_match(name, "MOD"@, "mod"@) {
        Some(Builtin::Modulo)
    } else if names_match(name, "PULSE"@, "pulse"@) {
        Some(Builtin::Pulse)
    } else if names_match(name, "STEP"@, "step"@) {
        Some(Builtin::Step)
    } else if names_match(name, "RAMP"@, "ramp"@) {
        Some(Builtin::Ramp)
    } else if names_match(name, "TIME"@, "time"@) {
        Some(Builtin::Time)
    } else if names_match(name, "DELAY1"@, "delay1"@) {
        Some(Builtin::Delay1)
    } else if names_match(name, "SMOOTH"@, "smooth"@) {
        Some(Builtin::Smooth)
    } else if names_match(name, "DELAY3"@, "delay3"@) {
        Some(Builtin::Delay3)
    } else if names_match(name, "DELAYP"@, "delayp"@) {
        Some(Builtin::DelayP)
    } else if names_match(name, "WITH_LOOKUP"@, "with_lookup"@) {
        Some(Builtin::WithLookup)
    } else if names_match(name, "RANDOM"@, "random"@) {
        Some(Builtin::Random)
    } else if names_match(name, "UNIFORM"@, "uniform"@) {
        Some(Builtin::Uniform)
    } else if names_match(name, "NORMAL"@, "normal"@) {
        Some(Builtin::Normal)
    } else if names_match(name, "LOGNORMAL"@, "lognormal"@) {
        Some(Builtin::LogNormal)
    } else if names_match(name, "POISSON"@, "poisson"@) {
        Some(Builtin::Poisson)
    } else {
        None
    }
}

fn named(chars: &[char], upper: &str, lower: &str) -> (r: bool)
    ensures
        r == names_match(chars@, upper@, lower@),
{
    let m = upper.unicode_len();
    if chars.len() != m || lower.unicode_len() != m {
        return false;
    }
    let mut k: usize = 0;
    while k < m
        invariant
            m == chars@.len(),
            m == upper@.len(),
            m == lower@.len(),
            k <= m,
            forall|j: int| 0 <= j < k ==> chars@[0 + j] == upper@[j] || chars@[0 + j] == lower@[j],
        decreases m - k,
    {
        let c = chars[k];
        if c != upper.get_char(k) && c != lower.get_char(k) {
            assert(!(chars@[0 + k] == upper@[k as int] || chars@[0 + k] == lower@[k as int]));
            return false;
        }
        k += 1;
    }
    true
}

/// Why an expression has no value.
#[derive(Debug, Clone, Copy, PartialEq, Eq, Structural)]
pub enum EvalErrorKind {
    /// A name that is neither `TIME` nor a parameter, stock, flow or auxiliary.
    UnknownVariable,
    /// A call of a name that is no function.
    UnknownFunction,
    /// A call with a number of arguments that the function does not take.
    ArityMismatch,
    /// An argument on which the function is not defined.
    DomainError,
    /// A division by zero.
    DivByZero,
}

/// A failed evaluation: the reason, and the name of the variable or function.
#[derive(Debug, Clone)]
pub struct EvalError {
    pub kind: EvalErrorKind,
    pub name: String,
}

/// The bits of minus one.
pub const MINUS_ONE_BITS: u64 = 0xbff0_0000_0000_0000;

/// The bits of one half.
pub const HALF_BITS: u64 = 0x3fe0_0000_0000_0000;

pub open spec fn zero() -> Number {
    Number { bits: 0 }
}

pub open spec fn one() -> Number {
    Number { bits: ONE_BITS }
}

pub open spec fn minus_one() -> Number {
    Number { bits: MINUS_ONE_BITS }
}

pub open spec fn half() -> Number {
    Number { bits: HALF_BITS }
}

impl Builtin {
    /// Whether the function takes `n` arguments.
    pub open spec fn accepts(self, n: int) -> bool {
        match self {
            Builtin::Min | Builtin::Max => n >= 1,
            Builtin::Abs | Builtin::Sqrt | Builtin::Exp | Builtin::Ln | Builtin::Log
            | Builtin::Log10 | Builtin::Sin | Builtin::Cos | Builtin::Tan | Builtin::Asin
            | Builtin::Acos | Builtin::Atan | Builtin::Floor | Builtin::Ceil | Builtin::Round
            | Builtin::Poisson => n == 1,
            Builtin::Pow | Builtin::Modulo | Builtin::Step | Builtin::Uniform | Builtin::Normal
            | Builtin::LogNormal => n == 2,
            Builtin::Pulse | Builtin::Ramp | Builtin::Delay1 | Builtin::Smooth
            | Builtin::Delay3 => n == 2 || n == 3,
            Builtin::DelayP => n == 3,
            Builtin::Time | Builtin::Random => n == 0,
            Builtin::WithLookup => n >= 3 && n % 2 == 1,
        }
    }

    /// Whether the function is defined on the given arguments, which it accepts
    /// by their number: logarithms want what is not at most zero, the inverse
    /// sine and cosine what is neither below minus one nor above one, the
    /// remainder a divisor that is not zero, and a repeating pulse an interval
    /// that is not at most zero.
    pub open spec fn defined_on(self, args: Seq<Number>) -> bool {
        match self {
            Builtin::Ln | Builtin::Log | Builtin::Log10 => !args[0].at_most(zero()),
            Builtin::Asin | Builtin::Acos => !args[0].below(minus_one()) && !one().below(args[0]),
            Builtin::Modulo => !args[1].same(zero()),
            Builtin::Pulse => args.len() == 3 ==> !args[2].at_most(zero()),
            _ => true,
        }
    }

    /// The order of the exponential delay behind a delay function.
    pub open spec fn stages(self) -> nat {
        match self {
            Builtin::Delay3 => 3,
            _ => 1,
        }
    }

    /// The function that `name` stands for, whatever the case of its letters.
    pub fn from_name(name: &str) -> (r: Option<Builtin>)
        ensures
            r == builtin_named(name@),
    {
        let v = to_chars(name);
        let c = v.as_slice();
        if named(c, "MIN", "min") {
            Some(Builtin::Min)
        } else if named(c, "MAX", "max") {
            Some(Builtin::Max)
        } else if named(c, "ABS", "abs") {
            Some(Builtin::Abs)
        } else if named(c, "SQRT", "sqrt") {
            Some(Builtin::Sqrt)
        } else if named(c, "EXP", "exp") {
            Some(Builtin::Exp)
        } else if named(c, "LN", "ln") {
            Some(Builtin::Ln)
        } else if named(c, "LOG", "log") {
            Some(Builtin::Log)
        } else if named(c, "LOG10", "log10") {
            Some(Builtin::Log10)
        } else if named(c, "SIN", "sin") {
            Some(Builtin::Sin)
        } else if named(c, "COS", "cos") {
            Some(Builtin::Cos)
        } else if named(c, "TAN", "tan") {
            Some(Builtin::Tan)
        } else if named(c, "ASIN", "asin") {
            Some(Builtin::Asin)
        } else if named(c, "ACOS", "acos") {
            Some(Builtin::Acos)
        } else if named(c, "ATAN", "atan") {
            Some(Builtin::Atan)
        } else if named(c, "FLOOR", "floor") {
            Some(Builtin::Floor)
        } else if named(c, "CEIL", "ceil") {
            Some(Builtin::Ceil)
        } else if named(c, "ROUND", "round") {
            Some(Builtin::Round)
        } else if named(c, "POW", "pow") {
            Some(Builtin::Pow)
        } else if named(c, "MODULO", "modulo") || named(c, "MOD", "mod") {
            Some(Builtin::Modulo)
        } else if named(c, "PULSE", "pulse") {
            Some(Builtin::Pulse)
        } else if named(c, "STEP", "step") {
            Some(Builtin::Step)
        } else if named(c, "RAMP", "ramp") {
            Some(Builtin::Ramp)
        } else if named(c, "TIME", "time") {
            Some(Builtin::Time)
        } else if named(c, "DELAY1", "delay1") {
            Some(Builtin::Delay1)
        } else if named(c, "SMOOTH", "smooth") {
            Some(Builtin::Smooth)
        } else if named(c, "DELAY3", "delay3") {
            Some(Builtin::Delay3)
        } else if named(c, "DELAYP", "delayp") {
            Some(Builtin::DelayP)
        } else if named(c, "WITH_LOOKUP", "with_lookup") {
            Some(Builtin::WithLookup)
        } else if named(c, "RANDOM", "random") {
            Some(Builtin::Random)
        } else if named(c, "UNIFORM", "uniform") {
            Some(Builtin::Uniform)
        } else if named(c, "NORMAL", "normal") {
            Some(Builtin::Normal)
        } else if named(c, "LOGNORMAL", "lognormal") {
            Some(Builtin::LogNormal)
        } else if named(c, "POISSON", "poisson") {
            Some(Builtin::Poisson)
        } else {
            None
        }
    }

    /// Whether the function takes `n` arguments.
    pub fn takes(self, n: usize) -> (r: bool)
        ensures
            r == self.accepts(n as int),
    {
        match self {
            Builtin::Min | Builtin::Max => n >= 1,
            Builtin::Abs | Builtin::Sqrt | Builtin::Exp | Builtin::Ln | Builtin::Log
            | Builtin::Log10 | Builtin::Sin | Builtin::Cos | Builtin::Tan | Builtin::Asin
            | Builtin::Acos | Builtin::Atan | Builtin::Floor | Builtin::Ceil | Builtin::Round
            | Builtin::Poisson => n == 1,
            Builtin::Pow | Builtin::Modulo | Builtin::Step | Builtin::Uniform | Builtin::Normal
            | Builtin::LogNormal => n == 2,
            Builtin::Pulse | Builtin::Ramp | Builtin::Delay1 | Builtin::Smooth
            | Builtin::Delay3 => n == 2 || n == 3,
            Builtin::DelayP => n == 3,
            Builtin::Time | Builtin::Random => n == 0,
            Builtin::WithLookup => n >= 3 && n % 2 == 1,
        }
    }

    /// Whether the function is defined on the given arguments.
    pub fn is_defined_on(self, args: &Vec<Number>) -> (r: bool)
        requires
            self.accepts(args@.len() as int),
        ensures
            r == self.defined_on(args@),
    {
        let zero = Number::zero();
        match self {
            Builtin::Ln | Builtin::Log | Builtin::Log10 => !args[0].le(&zero),
            Builtin::Asin | Builtin::Acos => {
                let low = Number::from_bits(MINUS_ONE_BITS);
                let high = Number::one();
                !args[0].lt(&low) && !args[0].gt(&high)
            },
            Builtin::Modulo => !args[1].equals(&zero),
            Builtin::Pulse => if args.len() == 3 {
                !args[2].le(&zero)
            } else {
                true
            },
            _ => true,
        }
    }

    /// The order of the exponential delay behind a delay function.
    pub fn delay_order(self) -> (r: usize)
        ensures
            r == self.stages(),
    {
        match self {
            Builtin::Delay3 => 3,
            _ => 1,
        }
    }
}

/// Decides what a call of `name` with `count` arguments is: the function, or why
/// there is none to call.
pub fn resolve_call(name: &str, count: usize) -> (r: Result<Builtin, EvalError>)
    ensures
        match r {
            Ok(b) => builtin_named(name@) == Some(b) && b.accepts(count as int),
            Err(e) => e.name@ == name@ && match builtin_named(name@) {
                Some(b) => !b.accepts(count as int) && e.kind == EvalErrorKind::ArityMismatch,
                None => e.kind == EvalErrorKind::UnknownFunction,
            },
        },
{
    match Builtin::from_name(name) {
        Some(b) => {
            if b.takes(count) {
                Ok(b)
            } else {
                Err(EvalError { kind: EvalErrorKind::ArityMismatch, name: String::from_str(name) })
            }
        },
        None => Err(EvalError { kind: EvalErrorKind::UnknownFunction, name: String::from_str(name) }),
    }
}

/// The text that tells one call site of a stateful function from another: the
/// name of the function, then each argument as it is written out, with
/// underscores between them.
pub open spec fn site_key(name: Seq<char>, args: Seq<Seq<char>>) -> Seq<char> {
    name + "_"@ + joined(args, "_"@)
}

/// The key of a call site, from the name as the call has it and its arguments.
pub fn call_site_key(name: &str, args: &Vec<Expression>) -> (r: String)
    ensures
        r@ == site_key(name@, printed_all(tree_views(args@))),
{
    let mut parts: Vec<String> = Vec::new();
    let mut i: usize = 0;
    while i < args.len()
        invariant
            i <= args@.len(),
            parts@.len() == i,
            forall|k: int|
                0 <= k < i ==> (#[trigger] parts@[k])@ == crate::model::expression::printed(
                    args@[k]@,
                ),
        decreases args@.len() - i,
    {
        parts.push(args[i].to_string());
        i += 1;
    }
    assert(parts@.map_values(|s: String| s@) =~= printed_all(tree_views(args@)));
    let inner = join(&parts, "_");
    let mut r = String::from_str(name);
    r.append("_");
    r.append(inner.as_str());
    r
}

/// Whether the value of a condition selects the first branch: it does when it
/// is above one half.
pub fn is_truthy(value: Number) -> (r: bool)
    ensures
        r == half().below(value),
{
    Number::from_bits(HALF_BITS).lt(&value)
}

/// Whether a divisor is zero.
pub fn is_zero_divisor(divisor: Number) -> (r: bool)
    ensures
        r == divisor.same(zero()),
{
    divisor.equals(&Number::zero())
}

/// What an order comparison holds of two numbers.
pub open spec fn compares(op: Operator, left: Number, right: Number) -> bool {
    match op {
        Operator::GreaterThan => right.below(left),
        Operator::LessThan => left.below(right),
        Operator::GreaterEqual => right.at_most(left),
        Operator::LessEqual => left.at_most(right),
        _ => false,
    }
}

/// Whether the operator compares by order.
pub open spec fn is_order_comparison(op: Operator) -> bool {
    op == Operator::GreaterThan || op == Operator::LessThan || op == Operator::GreaterEqual || op
        == Operator::LessEqual
}

/// The value of an order comparison: one where it holds, zero where it does not.
pub fn compare_values(op: Operator, left: Number, right: Number) -> (r: Number)
    requires
        is_order_comparison(op),
    ensures
        r == if compares(op, left, right) {
            one()
        } else {
            zero()
        },
{
    let holds = match op {
        Operator::GreaterThan => left.gt(&right),
        Operator::LessThan => left.lt(&right),
        Operator::GreaterEqual => left.ge(&right),
        _ => left.le(&right),
    };
    if holds {
        Number::one()
    } else {
        Number::zero()
    }
}

/// `STEP(height, at)` at time `time`: `height` from `at` on, zero before.
pub fn step_value(height: Number, at: Number, time: Number) -> (r: Number)
    ensures
        r == if at.at_most(time) {
            height
        } else {
            zero()
        },
{
    if time.ge(&at) {
        height
    } else {
        Number::zero()
    }
}

/// A single pulse that starts at `start` and ends before `end`, at time `time`:
/// one inside, zero outside.
pub fn pulse_value(start: Number, end: Number, time: Number) -> (r: Number)
    ensures
        r == if start.at_most(time) && time.below(end) {
            one()
        } else {
            zero()
        },
{
    if time.ge(&start) && time.lt(&end) {
        Number::one()
    } else {
        Number::zero()
    }
}

/// A repeating pulse of the given width that first starts at `start`, at time
/// `time`, where `phase` is the time since the start of the current period: zero
/// before the first start, then one while the phase is below the width.
pub fn repeating_pulse_value(start: Number, width: Number, time: Number, phase: Number) -> (r:
    Number)
    ensures
        r == if time.below(start) {
            zero()
        } else if phase.below(width) {
            one()
        } else {
            zero()
        },
{
    if time.lt(&start) {
        Number::zero()
    } else if phase.lt(&width) {
        Number::one()
    } else {
        Number::zero()
    }
}

/// Where a ramp stands at a time.
#[derive(Debug, Clone, Copy, PartialEq, Eq, Structural)]
pub enum RampPhase {
    /// Before the start: the ramp is zero.
    Before,
    /// Rising: the slope times the time since the start.
    Rising,
    /// At or after the end: the slope times the length of the ramp.
    Clamped,
}

/// Where `RAMP(slope, start[, end])` stands at time `time`.
pub fn ramp_phase(start: Number, end: Option<Number>, time: Number) -> (r: RampPhase)
    ensures
        r == if time.below(start) {
            RampPhase::Before
        } else if end is Some && end.unwrap().at_most(time) {
            RampPhase::Clamped
        } else {
            RampPhase::Rising
        },
{
    if time.lt(&start) {
        RampPhase::Before
    } else {
        match end {
            Some(e) => if time.ge(&e) {
                RampPhase::Clamped
            } else {
                RampPhase::Rising
            },
            None => RampPhase::Rising,
        }
    }
}

/// The points that the arguments of `WITH_LOOKUP` spell out after the first:
/// each pair of neighbours is one point.
pub open spec fn paired(values: Seq<Number>) -> Seq<(Number, Number)> {
    Seq::new(((values.len() - 1) / 2) as nat, |k: int| (values[1 + 2 * k], values[2 + 2 * k]))
}

/// The points of an inline lookup.
pub fn lookup_points(values: &Vec<Number>) -> (r: Vec<(Number, Number)>)
    requires
        Builtin::WithLookup.accepts(values@.len() as int),
    ensures
        r@ == paired(values@),
{
    let n = values.len();
    let mut r: Vec<(Number, Number)> = Vec::new();
    let mut i: usize = 1;
    while i < n
        invariant
            n == values@.len(),
            n % 2 == 1,
            i % 2 == 1,
            1 <= i <= n,
            r@.len() == (i - 1) / 2,
            forall|k: int| 0 <= k < r@.len() ==> r@[k] == (values@[1 + 2 * k], values@[2 + 2 * k]),
        decreases n - i,
    {
        r.push((values[i], values[i + 1]));
        i += 2;
    }
    assert(r@ =~= paired(values@));
    r
}

} // verus!

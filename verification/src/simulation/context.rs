//! What a name stands for while an expression is evaluated.

use vstd::prelude::*;
use vstd::string::*;
use crate::model::dimension::SubscriptRef;
use crate::model::functions::{builtin_named, Builtin, EvalError, EvalErrorKind};
use crate::model::{variable_value, Model};
use crate::number::Number;
use crate::simulation::state::SimulationState;

verus! {

/// The model, the state and the time against which an expression is evaluated.
pub struct EvaluationContext<'a> {
    pub model: &'a Model,
    pub state: &'a SimulationState,
    pub time: Number,
}

/// The value of a name at a time: the time itself for the name of the function
/// `TIME`, in any mix of upper and lower case; else the parameter of that name, else the stock, the
/// flow or the auxiliary of the state.
pub open spec fn named_value(model: Model, state: SimulationState, time: Number, name: Seq<char>)
    -> Option<Number> {
    if builtin_named(name) == Some(Builtin::Time) {
        Some(time)
    } else {
        variable_value(model, state, name)
    }
}

/// The name under which the element of an array variable is kept: the name of
/// the variable, then an underscore and the name of the element for each
/// subscript. There is none where a subscript is a whole dimension or a wildcard.
pub open spec fn flat_name(name: Seq<char>, subscripts: Seq<SubscriptRef>) -> Option<Seq<char>>
    decreases subscripts.len(),
{
    if subscripts.len() == 0 {
        Some(name)
    } else {
        match flat_name(name, subscripts.drop_last()) {
            Some(prefix) => match subscripts.last() {
                SubscriptRef::Element(e) => Some(prefix + "_"@ + e@),
                _ => None,
            },
            None => None,
        }
    }
}

/// The name under which the element of an array variable is kept.
pub fn flattened_name(name: &str, subscripts: &Vec<SubscriptRef>) -> (r: Option<String>)
    ensures
        match r {
            Some(flat) => flat_name(name@, subscripts@) == Some(flat@),
            None => flat_name(name@, subscripts@) is None,
        },
{
    let mut flat = String::from_str(name);
    let mut i: usize = 0;
    assert(subscripts@.take(0) =~= Seq::<SubscriptRef>::empty());
    while i < subscripts.len()
        invariant
            i <= subscripts@.len(),
            flat_name(name@, subscripts@.take(i as int)) == Some(flat@),
        decreases subscripts@.len() - i,
    {
        proof {
            assert(subscripts@.take(i + 1).drop_last() =~= subscripts@.take(i as int));
            assert(subscripts@.take(i + 1).last() == subscripts@[i as int]);
        }
        match &subscripts[i] {
            SubscriptRef::Element(e) => {
                flat.append("_");
                flat.append(e.as_str());
            },
            _ => {
                proof {
                    lemma_flat_name_fails(name@, subscripts@, i as int);
                }
                return None;
            },
        }
        i += 1;
    }
    assert(subscripts@.take(subscripts@.len() as int) =~= subscripts@);
    Some(flat)
}

/// Once a prefix of the subscripts has no flat name, no longer prefix has one.
pub proof fn lemma_flat_name_fails(name: Seq<char>, subscripts: Seq<SubscriptRef>, i: int)
    requires
        0 <= i < subscripts.len(),
        flat_name(name, subscripts.take(i + 1)) is None,
    ensures
        flat_name(name, subscripts) is None,
    decreases subscripts.len() - i,
{
    if i + 1 < subscripts.len() {
        assert(subscripts.take(i + 2).drop_last() =~= subscripts.take(i + 1));
        lemma_flat_name_fails(name, subscripts, i + 1);
    } else {
        assert(subscripts.take(i + 1) =~= subscripts);
    }
}

impl<'a> EvaluationContext<'a> {
    pub fn new(model: &'a Model, state: &'a SimulationState, time: Number) -> (r: EvaluationContext<
        'a,
    >)
        ensures
            r.model == model,
            r.state == state,
            r.time == time,
    {
        EvaluationContext { model, state, time }
    }

    /// The value of the variable called `name`.
    pub fn get_variable(&self, name: &str) -> (r: Result<Number, EvalError>)
        ensures
            match r {
                Ok(v) => named_value(*self.model, *self.state, self.time, name@) == Some(v),
                Err(e) => named_value(*self.model, *self.state, self.time, name@) is None
                    && e.kind == EvalErrorKind::UnknownVariable && e.name@ == name@,
            },
    {
        match Builtin::from_name(name) {
            Some(Builtin::Time) => {
                return Ok(self.time);
            },
            _ => {},
        }
        match self.model.get_variable(name, self.state) {
            Ok(v) => Ok(v),
            Err(_) => Err(
                EvalError { kind: EvalErrorKind::UnknownVariable, name: String::from_str(name) },
            ),
        }
    }

    /// The value of an element of an array variable, which is kept under its
    /// flat name. Without subscripts it is the value of the variable itself.
    pub fn get_subscripted_variable(&self, name: &str, subscripts: &Vec<SubscriptRef>) -> (r:
        Result<Number, EvalError>)
        ensures
            match r {
                Ok(v) => flat_name(name@, subscripts@) matches Some(flat) && named_value(
                    *self.model,
                    *self.state,
                    self.time,
                    flat,
                ) == Some(v),
                Err(e) => e.kind == EvalErrorKind::UnknownVariable && match flat_name(
                    name@,
                    subscripts@,
                ) {
                    Some(flat) => named_value(*self.model, *self.state, self.time, flat) is None
                        && e.name@ == flat,
                    None => e.name@ == name@,
                },
            },
    {
        match flattened_name(name, subscripts) {
            Some(flat) => self.get_variable(flat.as_str()),
            None => Err(
                EvalError { kind: EvalErrorKind::UnknownVariable, name: String::from_str(name) },
            ),
        }
    }
}

} // verus!

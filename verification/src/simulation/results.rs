//! The recorded trajectory of a run.

use vstd::prelude::*;
use vstd::string::*;
use crate::model::Model;
use crate::number::Number;
use crate::simulation::state::{value_in, values_of, SimulationState};

verus! {

/// The states recorded during a run, each with its time.
#[derive(Debug, Clone)]
pub struct SimulationResults {
    pub times: Vec<Number>,
    pub states: Vec<SimulationState>,
}

impl SimulationResults {
    /// Whether the results are a trajectory of the model: one state for each
    /// time and at that time; the first time is the start of the run; each time
    /// is above the one before and none is above the stop time; and every state
    /// has the variables of the model.
    pub open spec fn is_trace_of(&self, model: Model) -> bool {
        &&& self.times@.len() == self.states@.len()
        &&& self.times@.len() >= 1
        &&& self.times@[0] == model.time_config().start
        &&& forall|i: int|
            0 <= i < self.times@.len() ==> (#[trigger] self.states@[i]).time == self.times@[i]
        &&& forall|i: int|
            1 <= i < self.times@.len() ==> self.times@[i - 1].below(#[trigger] self.times@[i])
        &&& forall|i: int|
            0 <= i < self.times@.len() ==> (#[trigger] self.times@[i]).at_most(
                model.time_config().stop,
            )
        &&& forall|i: int| 0 <= i < self.states@.len() ==> (#[trigger] self.states@[i]).follows(model)
    }

    /// Whether every recorded state but the first respects the limits of the stocks.
    pub open spec fn steps_within_limits(&self, model: Model) -> bool {
        forall|i: int| 1 <= i < self.states@.len() ==> (#[trigger] self.states@[i]).within_limits(model)
    }

    /// Whether the last recorded state is at the time of `state` and has its
    /// stock, flow and auxiliary values.
    pub open spec fn ends_in(&self, state: SimulationState) -> bool {
        &&& self.states@.len() >= 1
        &&& self.states@.last().time == state.time
        &&& values_of(self.states@.last().stocks@) == values_of(state.stocks@)
        &&& values_of(self.states@.last().flows@) == values_of(state.flows@)
        &&& values_of(self.states@.last().auxiliaries@) == values_of(state.auxiliaries@)
    }

    /// No points.
    pub fn new() -> (r: SimulationResults)
        ensures
            r.times@.len() == 0,
            r.states@.len() == 0,
    {
        SimulationResults { times: Vec::new(), states: Vec::new() }
    }

    /// Appends a point.
    pub fn add_point(&mut self, time: Number, state: SimulationState)
        ensures
            final(self).times@ == old(self).times@.push(time),
            final(self).states@ == old(self).states@.push(state),
    {
        self.times.push(time);
        self.states.push(state);
    }

    /// The values of the variable called `name` over the recorded states: in
    /// each state the stock of that name, else the flow, else the auxiliary.
    /// There is no series when some state has no such variable.
    pub fn get_variable_series(&self, var_name: &str) -> (r: Option<Vec<Number>>)
        ensures
            match r {
                Some(series) => series@.len() == self.states@.len() && forall|i: int|
                    0 <= i < self.states@.len() ==> value_in(self.states@[i], var_name@) == Some(
                        #[trigger] series@[i],
                    ),
                None => exists|i: int|
                    0 <= i < self.states@.len() && value_in(
                        #[trigger] self.states@[i],
                        var_name@,
                    ) is None,
            },
    {
        let mut series: Vec<Number> = Vec::new();
        let mut i: usize = 0;
        while i < self.states.len()
            invariant
                i <= self.states@.len(),
                series@.len() == i,
                forall|k: int|
                    0 <= k < i ==> value_in(self.states@[k], var_name@) == Some(
                        #[trigger] series@[k],
                    ),
            decreases self.states@.len() - i,
        {
            match self.states[i].get(var_name) {
                Some(v) => {
                    series.push(v);
                },
                None => {
                    return None;
                },
            }
            i += 1;
        }
        Some(series)
    }
}

/// In a trajectory the times are strictly increasing: each is below every later one.
pub proof fn lemma_trace_increases(results: SimulationResults, model: Model, i: int, j: int)
    requires
        results.is_trace_of(model),
        0 <= i < j < results.times@.len(),
    ensures
        results.times@[i].below(results.times@[j]),
    decreases j - i,
{
    if i + 1 < j {
        lemma_trace_increases(results, model, i, j - 1);
        assert(results.times@[j - 1].below(results.times@[j]));
    }
}

} // verus!

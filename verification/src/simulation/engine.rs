//! The engine of a run: it keeps the model and the current state, takes the
//! states that an integrator proposes, and records the trajectory.

use vstd::prelude::*;
use vstd::string::*;
use crate::model::named::{holds, labels, position_of};
use crate::model::parameter::Parameter;
use crate::model::{names_hold, Model};
use crate::number::{lemma_order, Number};
use crate::simulation::error::{SimulationError, SimulationErrorKind};
use crate::simulation::results::SimulationResults;
use crate::simulation::state::{all_zero, limited_values, values_of, Proposal, SimulationState};

verus! {

/// The integrators to choose from.
#[derive(Debug, Clone, Copy, PartialEq, Eq, Structural)]
pub enum IntegrationMethod {
    Euler,
    RK4,
    Heun,
    BackwardEuler,
    RK45,
}

/// How to run a model.
#[derive(Debug, Clone)]
pub struct SimulationConfig {
    pub integration_method: IntegrationMethod,
    /// The spacing of the recorded states; every state is recorded when there is none.
    pub output_interval: Option<Number>,
}

impl Default for SimulationConfig {
    /// Euler, recording every step.
    fn default() -> (r: SimulationConfig)
        ensures
            r.integration_method == IntegrationMethod::Euler,
            r.output_interval is None,
    {
        SimulationConfig { integration_method: IntegrationMethod::Euler, output_interval: None }
    }
}

impl SimulationConfig {
    /// Whether the output interval, if there is one, is above zero.
    pub open spec fn interval_is_positive(&self) -> bool {
        self.output_interval matches Some(interval) ==> (Number { bits: 0 }).below(interval)
    }
}

/// The time that a step ends at when it proposes `proposed`: the stop time
/// where the proposal lies beyond it.
pub open spec fn clamped_time(proposed: Number, stop: Number) -> Number {
    if stop.below(proposed) {
        stop
    } else {
        proposed
    }
}

/// The arithmetic of a run, which the engine leaves to its user: how a step
/// gets from one state to a proposal for the next, and in which output
/// interval a time lies.
pub trait Integrator {
    /// What one step of size `dt` from `state` proposes as the next state.
    fn step(&mut self, model: &Model, state: &SimulationState, dt: Number) -> Result<
        Proposal,
        SimulationError,
    >;

    /// The number of the output interval in which `time` lies: `time` divided
    /// by `interval`, rounded down.
    fn interval_index(&self, time: Number, interval: Number) -> Number;
}

/// Whether `e` is the error that an engine for the model is refused with:
/// for a time step that is not above zero, an error about `dt`; else for a run
/// that stops before it starts, one about `stop`; else for a stock that names a
/// flow the model does not have, one about such a flow; else for an output
/// interval that is not above zero, one about the interval; else, where there
/// is not one initial value for each stock, one about the initial values.
pub open spec fn refused_as(
    model: Model,
    config: SimulationConfig,
    initial_count: nat,
    e: SimulationError,
) -> bool {
    if !model.time_config().step_is_positive() {
        e.kind == SimulationErrorKind::ModelValidationError && e.name@ == "dt"@ && e.message@
            == "The time step must be above zero"@
    } else if !model.time_config().range_is_ordered() {
        e.kind == SimulationErrorKind::ModelValidationError && e.name@ == "stop"@ && e.message@
            == "The run must not stop before it starts"@
    } else if !model.flows_resolve() {
        e.kind == SimulationErrorKind::MissingFlow && !holds(model.flow_list(), e.name@)
            && exists|i: int|
            0 <= i < model.stock_list().len() && (names_hold(
                (#[trigger] model.stock_list()[i]).inflows@,
                e.name@,
            ) || names_hold(model.stock_list()[i].outflows@, e.name@)) && e.message@ == "Flow '"@
                + e.name@ + "' not found for stock '"@ + model.stock_list()[i].name@ + "'"@
    } else if !config.interval_is_positive() {
        e.kind == SimulationErrorKind::ModelValidationError && e.name@ == "output_interval"@
            && e.message@ == "The output interval must be above zero"@
    } else {
        initial_count != model.stock_list().len() && e.kind
            == SimulationErrorKind::ModelValidationError && e.name@ == "initial values"@
            && e.message@ == "One initial value is needed for each stock"@
    }
}

/// A model, the way to run it and the state the run has reached.
#[derive(Debug)]
pub struct SimulationEngine {
    model: Model,
    config: SimulationConfig,
    state: SimulationState,
}

impl SimulationEngine {
    /// The model that is run.
    pub closed spec fn model_view(&self) -> Model {
        self.model
    }

    /// How the model is run.
    pub closed spec fn config_view(&self) -> SimulationConfig {
        self.config
    }

    /// The state that the run has reached.
    pub closed spec fn state_view(&self) -> SimulationState {
        self.state
    }

    /// What holds of every engine made by `new`, whatever steps it has taken:
    /// the model can be run, the state has the variables of the model, and the
    /// time lies between the start and the stop of the run.
    pub open spec fn ready(&self) -> bool {
        &&& self.model_view().runnable()
        &&& self.config_view().interval_is_positive()
        &&& self.state_view().follows(self.model_view())
        &&& self.model_view().time_config().start.at_most(self.state_view().time)
        &&& self.state_view().time.at_most(self.model_view().time_config().stop)
    }

    /// An engine at the start of a run. `initial_values` are the values of the
    /// initial equations of the stocks, in the order of the model; every flow
    /// and auxiliary starts at zero. Fails where the model cannot be run, the
    /// output interval is not above zero, or there is not one initial value for
    /// each stock; of several faults the first of these is reported.
    pub fn new(model: Model, config: SimulationConfig, initial_values: &Vec<Number>) -> (r: Result<
        SimulationEngine,
        SimulationError,
    >)
        ensures
            match r {
                Ok(engine) => engine.ready() && engine.model_view() == model
                    && engine.config_view() == config && engine.state_view().time
                    == model.time_config().start && values_of(engine.state_view().stocks@)
                    == initial_values@ && all_zero(engine.state_view().flows@) && all_zero(
                    engine.state_view().auxiliaries@,
                ) && model.runnable() && config.interval_is_positive() && initial_values@.len()
                    == model.stock_list().len(),
                Err(e) => refused_as(model, config, initial_values@.len(), e),
            },
    {
        if let Err(e) = model.validate() {
            return Err(SimulationError::from_validation(&e));
        }
        if let Some(interval) = config.output_interval {
            if !Number::zero().lt(&interval) {
                return Err(
                    SimulationError::new(
                        SimulationErrorKind::ModelValidationError,
                        "output_interval",
                        "The output interval must be above zero",
                    ),
                );
            }
        }
        let state = match SimulationState::initialize_from_model(&model, initial_values) {
            Ok(s) => s,
            Err(e) => {
                return Err(e);
            },
        };
        proof {
            let t = model.time_config();
            assert(!t.start.nan() && !t.stop.nan());
        }
        Ok(SimulationEngine { model, config, state })
    }

    pub fn model(&self) -> (r: &Model)
        ensures
            *r == self.model_view(),
    {
        &self.model
    }

    pub fn config(&self) -> (r: &SimulationConfig)
        ensures
            *r == self.config_view(),
    {
        &self.config
    }

    /// The state that the run has reached.
    pub fn current_state(&self) -> (r: &SimulationState)
        ensures
            *r == self.state_view(),
    {
        &self.state
    }

    /// The time that the run has reached.
    pub fn current_time(&self) -> (r: Number)
        ensures
            r == self.state_view().time,
    {
        self.state.time
    }

    /// Gives the parameter called `name` a new value.
    pub fn set_parameter(&mut self, name: &str, value: Number) -> (r: Result<(), String>)
        ensures
            old(self).ready() ==> final(self).ready(),
            final(self).state_view() == old(self).state_view(),
            final(self).config_view() == old(self).config_view(),
            final(self).model_view().stock_list() == old(self).model_view().stock_list(),
            final(self).model_view().flow_list() == old(self).model_view().flow_list(),
            final(self).model_view().auxiliary_list() == old(self).model_view().auxiliary_list(),
            final(self).model_view().time_config() == old(self).model_view().time_config(),
            final(self).model_view().info() == old(self).model_view().info(),
            final(self).model_view().dimension_list() == old(self).model_view().dimension_list(),
            final(self).model_view().lookup_list() == old(self).model_view().lookup_list(),
            match r {
                Ok(_) => holds(old(self).model_view().parameter_list(), name@) && final(self).model_view().parameter_list() == old(self).model_view().parameter_list().update(
                    position_of(old(self).model_view().parameter_list(), name@),
                    (Parameter {
                        value,
                        ..old(self).model_view().parameter_list()[position_of(
                            old(self).model_view().parameter_list(),
                            name@,
                        )]
                    }),
                ),
                Err(msg) => !holds(old(self).model_view().parameter_list(), name@) && final(self).model_view().parameter_list() == old(self).model_view().parameter_list() && msg@
                    == "Parameter '"@ + name@ + "' not found"@,
            },
    {
        self.model.set_parameter(name, value)
    }

    /// Whether the run has reached its stop time: the time is no longer below it.
    pub fn is_finished(&self) -> (r: bool)
        ensures
            r == !self.state_view().time.below(self.model_view().time_config().stop),
    {
        !self.state.time.lt(&self.model.time().stop)
    }

    /// Takes the state that a step proposes. The step ends at the proposed
    /// time, or at the stop time where the proposal lies beyond it, and must
    /// end after the current time; the stocks take the proposed values within
    /// their limits. On failure the engine stays as it was.
    pub fn accept(&mut self, proposal: &Proposal) -> (r: Result<(), SimulationError>)
        ensures
            final(self).model_view() == old(self).model_view(),
            final(self).config_view() == old(self).config_view(),
            old(self).ready() ==> final(self).ready(),
            match r {
                Ok(_) => {
                    let model = old(self).model_view();
                    let next = final(self).state_view();
                    &&& proposal.fits(model)
                    &&& old(self).state_view().time.below(next.time)
                    &&& next.time == clamped_time(proposal.time, model.time_config().stop)
                    &&& next.follows(model)
                    &&& limited_values(model.stock_list(), proposal.stocks@, next.stocks@)
                    &&& values_of(next.flows@) == proposal.flows@
                    &&& values_of(next.auxiliaries@) == proposal.auxiliaries@
                    &&& next.within_limits(model)
                },
                Err(e) => final(self).state_view() == old(self).state_view() && e.kind
                    == SimulationErrorKind::IntegratorFailure && (!proposal.fits(
                    old(self).model_view(),
                ) || !old(self).state_view().time.below(
                    clamped_time(proposal.time, old(self).model_view().time_config().stop),
                )),
            },
    {
        let stop = self.model.time().stop;
        let time = if stop.lt(&proposal.time) {
            stop
        } else {
            proposal.time
        };
        if !self.state.time.lt(&time) {
            return Err(
                SimulationError::new(
                    SimulationErrorKind::IntegratorFailure,
                    "time",
                    "A step must end after the time it starts at",
                ),
            );
        }
        let mut next = match SimulationState::accept(&self.model, proposal) {
            Ok(s) => s,
            Err(e) => {
                return Err(e);
            },
        };
        next.time = time;
        proof {
            if old(self).ready() {
                let t = self.model.time_config();
                lemma_order(t.start, self.state.time, time);
                lemma_order(time, proposal.time, t.stop);
            }
        }
        self.state = next;
        Ok(())
    }

    /// Advances the run by one step of the integrator: the state it proposes is
    /// taken as `accept` takes it.
    pub fn step<I: Integrator>(&mut self, integrator: &mut I) -> (r: Result<(), SimulationError>)
        ensures
            final(self).model_view() == old(self).model_view(),
            final(self).config_view() == old(self).config_view(),
            old(self).ready() ==> final(self).ready(),
            match r {
                Ok(_) => old(self).state_view().time.below(final(self).state_view().time)
                    && !old(self).model_view().time_config().stop.below(
                    final(self).state_view().time,
                ) && final(self).state_view().follows(old(self).model_view()) && final(self).state_view().within_limits(
                    old(self).model_view(),
                ),
                Err(_) => final(self).state_view() == old(self).state_view(),
            },
    {
        let dt = self.model.time().dt;
        let proposal = match integrator.step(&self.model, &self.state, dt) {
            Ok(p) => p,
            Err(e) => {
                return Err(e);
            },
        };
        self.accept(&proposal)
    }

    /// Runs from the current state to the stop time and returns the recorded
    /// states: the state the run starts from, then the state after each step,
    /// or with an output interval after each step that reaches a new interval.
    /// Fails as soon as a step fails; a run that starts at or after the stop
    /// time takes no step, cannot fail and records the one state it starts from.
    pub fn run<I: Integrator>(&mut self, integrator: &mut I) -> (r: Result<
        SimulationResults,
        SimulationError,
    >)
        ensures
            final(self).model_view() == old(self).model_view(),
            final(self).config_view() == old(self).config_view(),
            old(self).ready() ==> final(self).ready(),
            r matches Ok(results) ==> {
                let model = old(self).model_view();
                &&& results.times@.len() >= 1
                &&& results.states@.len() >= 1
                &&& results.times@[0] == old(self).state_view().time
                &&& results.states@[0].time == old(self).state_view().time
                &&& values_of(results.states@[0].stocks@) == values_of(old(self).state_view().stocks@)
                &&& values_of(results.states@[0].flows@) == values_of(old(self).state_view().flows@)
                &&& values_of(results.states@[0].auxiliaries@) == values_of(
                    old(self).state_view().auxiliaries@,
                )
                &&& !final(self).state_view().time.below(model.time_config().stop)
                &&& old(self).ready() && old(self).state_view().time == model.time_config().start
                    ==> results.is_trace_of(model)
                &&& results.steps_within_limits(model)
                &&& old(self).ready() ==> final(self).state_view().time.same(
                    model.time_config().stop,
                )
                &&& old(self).config_view().output_interval is None ==> {
                    &&& results.times@.last() == final(self).state_view().time
                    &&& results.ends_in(final(self).state_view())
                    &&& old(self).state_view().time.below(model.time_config().stop)
                        ==> results.times@.len() >= 2
                }
            },
            !old(self).state_view().time.below(old(self).model_view().time_config().stop) ==> {
                &&& r is Ok
                &&& r->Ok_0.times@.len() == 1
                &&& r->Ok_0.states@.len() == 1
                &&& final(self).state_view() == old(self).state_view()
            },
            r is Err ==> old(self).state_view().time.below(
                old(self).model_view().time_config().stop,
            ),
    {
        let mut results = self.start_results();
        let ghost first = results.states@[0];
        let ghost stepped = false;
        while !self.is_finished()
            invariant
                self.model_view() == old(self).model_view(),
                self.config_view() == old(self).config_view(),
                old(self).ready() ==> self.ready(),
                results.times@.len() >= 1,
                results.states@.len() >= 1,
                results.times@[0] == old(self).state_view().time,
                results.states@[0] == first,
                !stepped ==> self.state_view() == old(self).state_view() && results.times@.len()
                    == 1 && results.states@.len() == 1,
                stepped ==> old(self).state_view().time.below(
                    old(self).model_view().time_config().stop,
                ),
                self.config_view().output_interval is None ==> results.times@.last()
                    == self.state_view().time && results.ends_in(self.state_view()) && (stepped
                    ==> results.times@.len() >= 2),
                old(self).ready() && old(self).state_view().time == old(self).model_view().time_config().start ==> results.is_trace_of(self.model_view()),
                results.steps_within_limits(self.model_view()),
            decreases
                    self.model_view().time_config().stop.rank() - self.state_view().time.rank(),
        {
            let before = self.state.time;
            proof {
                stepped = true;
            }
            match self.step(integrator) {
                Ok(_) => {},
                Err(e) => {
                    return Err(e);
                },
            }
            let wanted = match self.config.output_interval {
                Some(interval) => {
                    let previous = integrator.interval_index(before, interval);
                    let current = integrator.interval_index(self.state.time, interval);
                    self.should_record(previous, current)
                },
                None => true,
            };
            if wanted {
                self.record(&mut results);
            }
        }
        Ok(results)
    }

    /// Whether the state reached is to be recorded, given the numbers of the
    /// output intervals in which the previous and the current time lie: always
    /// without an output interval, else when the number has grown.
    pub fn should_record(&self, previous_interval: Number, current_interval: Number) -> (r: bool)
        ensures
            r == (self.config_view().output_interval is None || previous_interval.below(
                current_interval,
            )),
    {
        match self.config.output_interval {
            Some(_) => previous_interval.lt(&current_interval),
            None => true,
        }
    }

    /// The results of a run that starts now: the current state at the current time.
    pub fn start_results(&self) -> (r: SimulationResults)
        ensures
            r.times@.len() == 1,
            r.states@.len() == 1,
            r.times@[0] == self.state_view().time,
            r.states@[0].time == self.state_view().time,
            values_of(r.states@[0].stocks@) == values_of(self.state_view().stocks@),
            values_of(r.states@[0].flows@) == values_of(self.state_view().flows@),
            values_of(r.states@[0].auxiliaries@) == values_of(self.state_view().auxiliaries@),
            self.ready() && self.state_view().time == self.model_view().time_config().start
                ==> r.is_trace_of(self.model_view()),
            r.steps_within_limits(self.model_view()),
    {
        let mut r = SimulationResults::new();
        r.add_point(self.state.time, self.state.duplicate());
        r
    }

    /// Records the current state at the end of the results, if its time lies
    /// after the last recorded time; says whether it did.
    pub fn record(&self, results: &mut SimulationResults) -> (r: bool)
        ensures
            r == (old(results).times@.len() > 0 && old(results).times@.last().below(
                self.state_view().time,
            )),
            !r ==> *final(results) == *old(results),
            r ==> final(results).times@ == old(results).times@.push(self.state_view().time)
                && final(results).states@.len() == old(results).states@.len() + 1 && final(results).states@.drop_last() == old(results).states@ && final(results).states@.last().time
                == self.state_view().time && values_of(final(results).states@.last().stocks@)
                == values_of(self.state_view().stocks@) && values_of(
                final(results).states@.last().flows@,
            ) == values_of(self.state_view().flows@) && values_of(
                final(results).states@.last().auxiliaries@,
            ) == values_of(self.state_view().auxiliaries@),
            self.ready() && old(results).is_trace_of(self.model_view()) ==> final(results).is_trace_of(self.model_view()),
            self.state_view().within_limits(self.model_view()) && old(results).steps_within_limits(
                self.model_view(),
            ) ==> final(results).steps_within_limits(self.model_view()),
    {
        let n = results.times.len();
        if n == 0 || !results.times[n - 1].lt(&self.state.time) {
            return false;
        }
        let copy = self.state.duplicate();
        proof {
            assert(copy.stocks@.len() == self.state.stocks@.len()) by {
                assert(values_of(copy.stocks@).len() == values_of(self.state.stocks@).len());
            }
            assert forall|i: int|
                0 <= i < copy.stocks@.len() implies copy.stocks@[i].value
                == self.state.stocks@[i].value by {
                assert(values_of(copy.stocks@)[i] == copy.stocks@[i].value);
                assert(values_of(self.state.stocks@)[i] == self.state.stocks@[i].value);
            }
        }
        let ghost before = *results;
        results.add_point(self.state.time, copy);
        proof {
            assert(results.states@.drop_last() =~= before.states@);
            let model = self.model_view();
            if self.ready() && before.is_trace_of(model) {
                assert forall|i: int| 0 <= i < results.states@.len() implies (
                #[trigger] results.states@[i]).follows(model) && results.states@[i].time
                    == results.times@[i] by {
                    if i < n {
                        assert(results.states@[i] == before.states@[i]);
                    }
                }
                assert forall|i: int| 0 <= i < results.times@.len() implies (
                #[trigger] results.times@[i]).at_most(model.time_config().stop) by {
                    if i < n {
                        assert(results.times@[i] == before.times@[i]);
                    }
                }
                assert forall|i: int| 1 <= i < results.times@.len() implies results.times@[i
                    - 1].below(#[trigger] results.times@[i]) by {
                    if i < n {
                        assert(results.times@[i] == before.times@[i]);
                        assert(results.times@[i - 1] == before.times@[i - 1]);
                    }
                }
            }
            if self.state_view().within_limits(model) && before.steps_within_limits(model) {
                assert forall|i: int| 1 <= i < results.states@.len() implies (
                #[trigger] results.states@[i]).within_limits(model) by {
                    if i < before.states@.len() {
                        assert(results.states@[i] == before.states@[i]);
                    }
                }
            }
        }
        true
    }
}

} // verus!

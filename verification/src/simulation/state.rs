//! The state of a run at one time.

use vstd::prelude::*;
use vstd::string::*;
use crate::model::named::{holds, labels, position_of, find_named, Named};
use crate::model::stock::Stock;
use crate::model::Model;
use crate::number::Number;
use crate::simulation::error::{SimulationError, SimulationErrorKind};

verus! {

/// A named value.
#[derive(Debug, Clone)]
pub struct Entry {
    pub name: String,
    pub value: Number,
}

impl Named for Entry {
    open spec fn label(&self) -> Seq<char> {
        self.name@
    }

    fn name_ref(&self) -> (r: &String) {
        &self.name
    }
}

/// The values of all stocks, flows and auxiliaries at one time.
#[derive(Debug, Clone)]
pub struct SimulationState {
    pub time: Number,
    pub stocks: Vec<Entry>,
    pub flows: Vec<Entry>,
    pub auxiliaries: Vec<Entry>,
}

impl Proposal {
    /// Whether the proposal has one value for each stock, flow and auxiliary of
    /// the model.
    pub open spec fn fits(&self, model: Model) -> bool {
        &&& self.stocks@.len() == model.stock_list().len()
        &&& self.flows@.len() == model.flow_list().len()
        &&& self.auxiliaries@.len() == model.auxiliary_list().len()
    }
}

/// A copy of the entries.
pub fn copy_entries(entries: &Vec<Entry>) -> (r: Vec<Entry>)
    ensures
        labels(r@) == labels(entries@),
        values_of(r@) == values_of(entries@),
{
    let mut r: Vec<Entry> = Vec::new();
    let mut i: usize = 0;
    while i < entries.len()
        invariant
            i <= entries@.len(),
            r@.len() == i,
            forall|k: int| 0 <= k < i ==> (#[trigger] r@[k]).name@ == entries@[k].name@,
            forall|k: int| 0 <= k < i ==> (#[trigger] r@[k]).value == entries@[k].value,
        decreases entries@.len() - i,
    {
        r.push(Entry { name: entries[i].name.clone(), value: entries[i].value });
        i += 1;
    }
    assert(labels(r@) =~= labels(entries@));
    assert(values_of(r@) =~= values_of(entries@));
    r
}

/// The values of the entries, in order.
pub open spec fn values_of(entries: Seq<Entry>) -> Seq<Number> {
    Seq::new(entries.len(), |i: int| entries[i].value)
}

/// What a step of an integrator proposes as the next state: the time, and the
/// values of the stocks, flows and auxiliaries in the order of the model.
#[derive(Debug, Clone)]
pub struct Proposal {
    pub time: Number,
    pub stocks: Vec<Number>,
    pub flows: Vec<Number>,
    pub auxiliaries: Vec<Number>,
}

/// Whether all the values are zero.
pub open spec fn all_zero(entries: Seq<Entry>) -> bool {
    forall|i: int| 0 <= i < entries.len() ==> (#[trigger] entries[i]).value.bits == 0
}

/// Whether the stock values are the proposed values after the limits of their
/// stocks were applied.
pub open spec fn limited_values(stocks: Seq<Stock>, proposed: Seq<Number>, entries: Seq<Entry>)
    -> bool {
    &&& entries.len() == stocks.len()
    &&& forall|i: int|
        0 <= i < entries.len() ==> (#[trigger] entries[i]).value == stocks[i].limited(proposed[i])
}

/// The value that a state has under a name: that of the stock of that name,
/// else of the flow, else of the auxiliary.
pub open spec fn value_in(state: SimulationState, name: Seq<char>) -> Option<Number> {
    if holds(state.stocks@, name) {
        Some(state.stocks@[position_of(state.stocks@, name)].value)
    } else if holds(state.flows@, name) {
        Some(state.flows@[position_of(state.flows@, name)].value)
    } else if holds(state.auxiliaries@, name) {
        Some(state.auxiliaries@[position_of(state.auxiliaries@, name)].value)
    } else {
        None
    }
}

/// One entry for each item, under its name, with the value at its position.
fn entries_for<T: Named>(items: &Vec<T>, values: &Vec<Number>) -> (r: Vec<Entry>)
    requires
        items@.len() == values@.len(),
    ensures
        labels(r@) == labels(items@),
        values_of(r@) == values@,
{
    let mut r: Vec<Entry> = Vec::new();
    let mut i: usize = 0;
    while i < items.len()
        invariant
            i <= items@.len(),
            items@.len() == values@.len(),
            r@.len() == i,
            forall|k: int| 0 <= k < i ==> (#[trigger] r@[k]).name@ == items@[k].label(),
            forall|k: int| 0 <= k < i ==> (#[trigger] r@[k]).value == values@[k],
        decreases items@.len() - i,
    {
        r.push(Entry { name: items[i].name_ref().clone(), value: values[i] });
        i += 1;
    }
    assert(labels(r@) =~= labels(items@));
    assert(values_of(r@) =~= values@);
    r
}

/// One entry for each item, under its name, with the value zero.
fn zero_entries<T: Named>(items: &Vec<T>) -> (r: Vec<Entry>)
    ensures
        labels(r@) == labels(items@),
        all_zero(r@),
{
    let mut r: Vec<Entry> = Vec::new();
    let mut i: usize = 0;
    while i < items.len()
        invariant
            i <= items@.len(),
            r@.len() == i,
            forall|k: int| 0 <= k < i ==> (#[trigger] r@[k]).name@ == items@[k].label(),
            forall|k: int| 0 <= k < i ==> (#[trigger] r@[k]).value.bits == 0,
        decreases items@.len() - i,
    {
        r.push(Entry { name: items[i].name_ref().clone(), value: Number::zero() });
        i += 1;
    }
    assert(labels(r@) =~= labels(items@));
    r
}

/// One entry for each stock, with the proposed value after the limits of the stock.
fn limited_entries(stocks: &Vec<Stock>, proposed: &Vec<Number>) -> (r: Vec<Entry>)
    requires
        stocks@.len() == proposed@.len(),
    ensures
        labels(r@) == labels(stocks@),
        limited_values(stocks@, proposed@, r@),
        forall|i: int| 0 <= i < stocks@.len() ==> (#[trigger] stocks@[i]).within_limits(r@[i].value),
{
    let mut r: Vec<Entry> = Vec::new();
    let mut i: usize = 0;
    while i < stocks.len()
        invariant
            i <= stocks@.len(),
            stocks@.len() == proposed@.len(),
            r@.len() == i,
            forall|k: int| 0 <= k < i ==> (#[trigger] r@[k]).name@ == stocks@[k].label(),
            forall|k: int| 0 <= k < i ==> (#[trigger] r@[k]).value == stocks@[k].limited(proposed@[k]),
            forall|k: int| 0 <= k < i ==> (#[trigger] stocks@[k]).within_limits(r@[k].value),
        decreases stocks@.len() - i,
    {
        let value = stocks[i].constrain(proposed[i]);
        r.push(Entry { name: stocks[i].name.clone(), value });
        i += 1;
    }
    assert(labels(r@) =~= labels(stocks@));
    r
}

/// The value of the entry called `name`.
pub fn entry_value(entries: &Vec<Entry>, name: &str) -> (r: Option<Number>)
    ensures
        match r {
            Some(v) => holds(entries@, name@) && entries@[position_of(entries@, name@)].value == v,
            None => !holds(entries@, name@),
        },
{
    match find_named(entries, name) {
        Some(i) => Some(entries[i].value),
        None => None,
    }
}

impl SimulationState {
    /// Whether the state has a value for each stock, flow and auxiliary of the
    /// model, under the same names and in the same order, and for nothing else.
    pub open spec fn follows(&self, model: Model) -> bool {
        &&& labels(self.stocks@) == labels(model.stock_list())
        &&& labels(self.flows@) == labels(model.flow_list())
        &&& labels(self.auxiliaries@) == labels(model.auxiliary_list())
    }

    /// Whether every stock value respects the limits of its stock, as far as
    /// that stock's limits can be met.
    pub open spec fn within_limits(&self, model: Model) -> bool {
        forall|i: int|
            0 <= i < self.stocks@.len() && i < model.stock_list().len() ==> (
            #[trigger] model.stock_list()[i]).within_limits(self.stocks@[i].value)
    }

    /// The state at the start of a run: the stocks at the given initial values,
    /// which are those of their initial equations in the order of the model, and
    /// every flow and auxiliary at zero.
    pub fn initialize_from_model(model: &Model, initial_values: &Vec<Number>) -> (r: Result<
        SimulationState,
        SimulationError,
    >)
        ensures
            match r {
                Ok(s) => initial_values@.len() == model.stock_list().len() && s.follows(*model)
                    && s.time == model.time_config().start && values_of(s.stocks@)
                    == initial_values@ && all_zero(s.flows@) && all_zero(s.auxiliaries@),
                Err(e) => initial_values@.len() != model.stock_list().len() && e.kind
                    == SimulationErrorKind::ModelValidationError && e.name@ == "initial values"@
                    && e.message@ == "One initial value is needed for each stock"@,
            },
    {
        if initial_values.len() != model.stocks().len() {
            return Err(
                SimulationError::new(
                    SimulationErrorKind::ModelValidationError,
                    "initial values",
                    "One initial value is needed for each stock",
                ),
            );
        }
        Ok(
            SimulationState {
                time: model.time().start,
                stocks: entries_for(model.stocks(), initial_values),
                flows: zero_entries(model.flows()),
                auxiliaries: zero_entries(model.auxiliaries()),
            },
        )
    }

    /// The state that a proposal leads to: its time, its flows and auxiliaries,
    /// and its stock values after the limits of each stock were applied. Fails
    /// when the proposal does not have one value for each element of the model.
    pub fn accept(model: &Model, proposal: &Proposal) -> (r: Result<
        SimulationState,
        SimulationError,
    >)
        ensures
            match r {
                Ok(next) => proposal.fits(*model) && next.follows(*model) && next.time
                    == proposal.time && limited_values(
                    model.stock_list(),
                    proposal.stocks@,
                    next.stocks@,
                ) && values_of(next.flows@) == proposal.flows@ && values_of(next.auxiliaries@)
                    == proposal.auxiliaries@ && next.within_limits(*model),
                Err(e) => !proposal.fits(*model) && e.kind
                    == SimulationErrorKind::IntegratorFailure && e.name@ == "proposal"@
                    && e.message@
                    == "A step must give one value for each stock, flow and auxiliary"@,
            },
    {
        if proposal.stocks.len() != model.stocks().len() || proposal.flows.len()
            != model.flows().len() || proposal.auxiliaries.len() != model.auxiliaries().len() {
            return Err(
                SimulationError::new(
                    SimulationErrorKind::IntegratorFailure,
                    "proposal",
                    "A step must give one value for each stock, flow and auxiliary",
                ),
            );
        }
        let stocks = limited_entries(model.stocks(), &proposal.stocks);
        Ok(
            SimulationState {
                time: proposal.time,
                stocks,
                flows: entries_for(model.flows(), &proposal.flows),
                auxiliaries: entries_for(model.auxiliaries(), &proposal.auxiliaries),
            },
        )
    }

    /// The value under `name`: of a stock first, then of a flow or an auxiliary.
    pub fn get(&self, name: &str) -> (r: Option<Number>)
        ensures
            r == value_in(*self, name@),
    {
        if let Some(v) = entry_value(&self.stocks, name) {
            return Some(v);
        }
        if let Some(v) = entry_value(&self.flows, name) {
            return Some(v);
        }
        entry_value(&self.auxiliaries, name)
    }

    /// A copy of the state.
    pub fn duplicate(&self) -> (r: SimulationState)
        ensures
            r.time == self.time,
            labels(r.stocks@) == labels(self.stocks@),
            labels(r.flows@) == labels(self.flows@),
            labels(r.auxiliaries@) == labels(self.auxiliaries@),
            values_of(r.stocks@) == values_of(self.stocks@),
            values_of(r.flows@) == values_of(self.flows@),
            values_of(r.auxiliaries@) == values_of(self.auxiliaries@),
    {
        SimulationState {
            time: self.time,
            stocks: copy_entries(&self.stocks),
            flows: copy_entries(&self.flows),
            auxiliaries: copy_entries(&self.auxiliaries),
        }
    }

    /// A state at time zero with no values.
    pub fn new() -> (r: SimulationState)
        ensures
            r.time.bits == 0,
            r.stocks@.len() == 0,
            r.flows@.len() == 0,
            r.auxiliaries@.len() == 0,
    {
        SimulationState {
            time: Number::zero(),
            stocks: Vec::new(),
            flows: Vec::new(),
            auxiliaries: Vec::new(),
        }
    }
}

} // verus!

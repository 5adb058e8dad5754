//! Model structure: dimensions, units, expressions and the model container.

pub mod auxiliary;
pub mod dimension;
pub mod expression;
pub mod functions;
pub mod grammar;
pub mod flow;
pub mod named;
pub mod parameter;
pub mod parser;
pub mod roundtrip;
pub mod scan;
pub mod sealed;
pub mod stock;
pub mod text_laws;
pub mod units;

pub use auxiliary::Auxiliary;
pub use dimension::{Dimension, DimensionManager, SubscriptRef};
pub use expression::Expression;
pub use flow::Flow;
pub use parameter::Parameter;
pub use stock::Stock;
pub use units::{BaseDimension, DimensionalFormula, UnitChecker};

use vstd::prelude::*;
use vstd::string::*;
use crate::model::named::{add_named, distinct, find_named, first_at, holds, position_of, Named};
use crate::number::Number;
use crate::simulation::lookup::LookupTable;
use crate::simulation::state::SimulationState;
use crate::text::concat3;

verus! {

/// The bits of one hundred.
pub const HUNDRED_BITS: u64 = 0x4059_0000_0000_0000;

/// The bits of one quarter.
pub const QUARTER_BITS: u64 = 0x3fd0_0000_0000_0000;

/// The span of a run and the size of its steps.
#[derive(Debug, Clone)]
pub struct TimeConfig {
    pub start: Number,
    pub stop: Number,
    pub dt: Number,
    pub units: Option<String>,
}

impl Default for TimeConfig {
    /// From zero to one hundred in steps of one quarter.
    fn default() -> (r: TimeConfig)
        ensures
            r.start.bits == 0,
            r.stop.bits == HUNDRED_BITS,
            r.dt.bits == QUARTER_BITS,
            r.units is None,
    {
        TimeConfig {
            start: Number::zero(),
            stop: Number::from_bits(HUNDRED_BITS),
            dt: Number::from_bits(QUARTER_BITS),
            units: None,
        }
    }
}

impl TimeConfig {
    /// Whether the step is above zero.
    pub open spec fn step_is_positive(&self) -> bool {
        (Number { bits: 0 }).below(self.dt)
    }

    /// Whether the run does not stop before it starts.
    pub open spec fn range_is_ordered(&self) -> bool {
        self.start.at_most(self.stop)
    }
}

/// What a model is called and who wrote it.
#[derive(Debug, Clone)]
pub struct ModelMetadata {
    pub name: String,
    pub description: Option<String>,
    pub author: Option<String>,
}

impl Default for ModelMetadata {
    fn default() -> (r: ModelMetadata)
        ensures
            r.name@ == "Untitled Model"@,
            r.description is None,
            r.author is None,
    {
        ModelMetadata { name: String::from_str("Untitled Model"), description: None, author: None }
    }
}

/// What is wrong with a model.
#[derive(Debug, Clone, Copy, PartialEq, Eq, Structural)]
pub enum ValidationErrorKind {
    /// The time step is not above zero.
    TimeStep,
    /// The run stops before it starts.
    TimeRange,
    /// A stock names a flow that the model does not have.
    MissingFlow,
}

/// A model that cannot be run: the reason, and for a missing flow the stock
/// that names it and the name.
#[derive(Debug, Clone)]
pub struct ValidationError {
    pub kind: ValidationErrorKind,
    pub stock: String,
    pub flow: String,
}

/// A system dynamics model. Within each kind, no two elements have the same name.
#[derive(Debug, Clone)]
pub struct Model {
    metadata: ModelMetadata,
    time: TimeConfig,
    stocks: Vec<Stock>,
    flows: Vec<Flow>,
    auxiliaries: Vec<Auxiliary>,
    parameters: Vec<Parameter>,
    dimensions: Vec<Dimension>,
    lookups: Vec<LookupTable>,
}

/// Whether every name in `names` is the name of one of the flows.
pub open spec fn all_flows(flows: Seq<Flow>, names: Seq<String>) -> bool {
    forall|k: int| 0 <= k < names.len() ==> holds(flows, (#[trigger] names[k])@)
}

/// Whether `name` is one of `names`.
pub open spec fn names_hold(names: Seq<String>, name: Seq<char>) -> bool {
    exists|k: int| 0 <= k < names.len() && (#[trigger] names[k])@ == name
}

/// The first of `names` that is no flow.
fn first_missing(flows: &Vec<Flow>, names: &Vec<String>) -> (r: Option<usize>)
    ensures
        match r {
            Some(k) => k < names@.len() && !holds(flows@, names@[k as int]@),
            None => all_flows(flows@, names@),
        },
{
    let mut k: usize = 0;
    while k < names.len()
        invariant
            k <= names@.len(),
            forall|j: int| 0 <= j < k ==> holds(flows@, (#[trigger] names@[j])@),
        decreases names@.len() - k,
    {
        if find_named(flows, names[k].as_str()).is_none() {
            return Some(k);
        }
        k += 1;
    }
    None
}

/// The value that a name has in a model and a state: that of the parameter of
/// that name, else of the stock, else of the flow, else of the auxiliary.
pub open spec fn variable_value(model: Model, state: SimulationState, name: Seq<char>) -> Option<
    Number,
> {
    if holds(model.parameter_list(), name) {
        Some(model.parameter_list()[position_of(model.parameter_list(), name)].value)
    } else if holds(state.stocks@, name) {
        Some(state.stocks@[position_of(state.stocks@, name)].value)
    } else if holds(state.flows@, name) {
        Some(state.flows@[position_of(state.flows@, name)].value)
    } else if holds(state.auxiliaries@, name) {
        Some(state.auxiliaries@[position_of(state.auxiliaries@, name)].value)
    } else {
        None
    }
}

impl Model {
    /// The name and description of the model.
    pub closed spec fn info(&self) -> ModelMetadata {
        self.metadata
    }

    /// The span of a run and the size of its steps.
    pub closed spec fn time_config(&self) -> TimeConfig {
        self.time
    }

    /// The stocks, in the order in which they were added.
    pub closed spec fn stock_list(&self) -> Seq<Stock> {
        self.stocks@
    }

    /// The flows, in the order in which they were added.
    pub closed spec fn flow_list(&self) -> Seq<Flow> {
        self.flows@
    }

    /// The auxiliaries, in the order in which they were added.
    pub closed spec fn auxiliary_list(&self) -> Seq<Auxiliary> {
        self.auxiliaries@
    }

    /// The parameters, in the order in which they were added.
    pub closed spec fn parameter_list(&self) -> Seq<Parameter> {
        self.parameters@
    }

    /// The dimensions, in the order in which they were added.
    pub closed spec fn dimension_list(&self) -> Seq<Dimension> {
        self.dimensions@
    }

    /// The lookup tables, in the order in which they were added.
    pub closed spec fn lookup_list(&self) -> Seq<LookupTable> {
        self.lookups@
    }

    /// Whether no two elements of one kind have the same name.
    pub open spec fn names_are_distinct(&self) -> bool {
        &&& distinct(self.stock_list())
        &&& distinct(self.flow_list())
        &&& distinct(self.auxiliary_list())
        &&& distinct(self.parameter_list())
        &&& distinct(self.dimension_list())
        &&& distinct(self.lookup_list())
    }

    /// Whether every inflow and outflow of every stock is a flow of the model.
    pub open spec fn flows_resolve(&self) -> bool {
        forall|i: int|
            0 <= i < self.stock_list().len() ==> all_flows(
                self.flow_list(),
                (#[trigger] self.stock_list()[i]).inflows@,
            ) && all_flows(self.flow_list(), self.stock_list()[i].outflows@)
    }

    /// Whether the model can be run: the step is above zero, the run does not
    /// stop before it starts, and the stocks name flows that exist.
    pub open spec fn runnable(&self) -> bool {
        self.time_config().step_is_positive() && self.time_config().range_is_ordered()
            && self.flows_resolve()
    }

    /// An empty model with the default time span.
    pub fn new(name: &str) -> (r: Model)
        ensures
            r.info().name@ == name@,
            r.info().description is None,
            r.info().author is None,
            r.time_config().start.bits == 0,
            r.time_config().stop.bits == HUNDRED_BITS,
            r.time_config().dt.bits == QUARTER_BITS,
            r.time_config().units is None,
            r.stock_list().len() == 0,
            r.flow_list().len() == 0,
            r.auxiliary_list().len() == 0,
            r.parameter_list().len() == 0,
            r.dimension_list().len() == 0,
            r.lookup_list().len() == 0,
            r.names_are_distinct(),
    {
        Model {
            metadata: ModelMetadata {
                name: String::from_str(name),
                description: None,
                author: None,
            },
            time: TimeConfig::default(),
            stocks: Vec::new(),
            flows: Vec::new(),
            auxiliaries: Vec::new(),
            parameters: Vec::new(),
            dimensions: Vec::new(),
            lookups: Vec::new(),
        }
    }

    pub fn metadata(&self) -> (r: &ModelMetadata)
        ensures
            *r == self.info(),
    {
        &self.metadata
    }

    pub fn time(&self) -> (r: &TimeConfig)
        ensures
            *r == self.time_config(),
    {
        &self.time
    }

    /// Replaces the name and description of the model.
    pub fn set_metadata(&mut self, metadata: ModelMetadata)
        ensures
            final(self).info() == metadata,
            final(self).time_config() == old(self).time_config(),
            final(self).stock_list() == old(self).stock_list(),
            final(self).flow_list() == old(self).flow_list(),
            final(self).auxiliary_list() == old(self).auxiliary_list(),
            final(self).parameter_list() == old(self).parameter_list(),
            final(self).dimension_list() == old(self).dimension_list(),
            final(self).lookup_list() == old(self).lookup_list(),
    {
        self.metadata = metadata;
    }

    /// Replaces the span of a run and the size of its steps.
    pub fn set_time(&mut self, time: TimeConfig)
        ensures
            final(self).time_config() == time,
            final(self).info() == old(self).info(),
            final(self).stock_list() == old(self).stock_list(),
            final(self).flow_list() == old(self).flow_list(),
            final(self).auxiliary_list() == old(self).auxiliary_list(),
            final(self).parameter_list() == old(self).parameter_list(),
            final(self).dimension_list() == old(self).dimension_list(),
            final(self).lookup_list() == old(self).lookup_list(),
    {
        self.time = time;
    }

    pub fn stocks(&self) -> (r: &Vec<Stock>)
        ensures
            r@ == self.stock_list(),
    {
        &self.stocks
    }

    pub fn flows(&self) -> (r: &Vec<Flow>)
        ensures
            r@ == self.flow_list(),
    {
        &self.flows
    }

    pub fn auxiliaries(&self) -> (r: &Vec<Auxiliary>)
        ensures
            r@ == self.auxiliary_list(),
    {
        &self.auxiliaries
    }

    pub fn parameters(&self) -> (r: &Vec<Parameter>)
        ensures
            r@ == self.parameter_list(),
    {
        &self.parameters
    }

    pub fn dimensions(&self) -> (r: &Vec<Dimension>)
        ensures
            r@ == self.dimension_list(),
    {
        &self.dimensions
    }

    pub fn lookups(&self) -> (r: &Vec<LookupTable>)
        ensures
            r@ == self.lookup_list(),
    {
        &self.lookups
    }

    /// Adds a stock unless one of that name is there.
    pub fn add_stock(&mut self, stock: Stock) -> (r: Result<(), String>)
        ensures
            old(self).names_are_distinct() ==> final(self).names_are_distinct(),
            final(self).info() == old(self).info(),
            final(self).time_config() == old(self).time_config(),
            final(self).flow_list() == old(self).flow_list(),
            final(self).auxiliary_list() == old(self).auxiliary_list(),
            final(self).parameter_list() == old(self).parameter_list(),
            final(self).dimension_list() == old(self).dimension_list(),
            final(self).lookup_list() == old(self).lookup_list(),
            match r {
                Ok(_) => !holds(old(self).stock_list(), stock.name@) && final(self).stock_list()
                    == old(self).stock_list().push(stock),
                Err(msg) => holds(old(self).stock_list(), stock.name@) && final(self).stock_list()
                    == old(self).stock_list() && msg@ == "Stock '"@ + stock.name@
                    + "' already exists"@,
            },
    {
        let msg = concat3("Stock '", stock.name.as_str(), "' already exists");
        if add_named(&mut self.stocks, stock) {
            Ok(())
        } else {
            Err(msg)
        }
    }

    /// Adds a flow unless one of that name is there.
    pub fn add_flow(&mut self, flow: Flow) -> (r: Result<(), String>)
        ensures
            old(self).names_are_distinct() ==> final(self).names_are_distinct(),
            final(self).info() == old(self).info(),
            final(self).time_config() == old(self).time_config(),
            final(self).stock_list() == old(self).stock_list(),
            final(self).auxiliary_list() == old(self).auxiliary_list(),
            final(self).parameter_list() == old(self).parameter_list(),
            final(self).dimension_list() == old(self).dimension_list(),
            final(self).lookup_list() == old(self).lookup_list(),
            match r {
                Ok(_) => !holds(old(self).flow_list(), flow.name@) && final(self).flow_list()
                    == old(self).flow_list().push(flow),
                Err(msg) => holds(old(self).flow_list(), flow.name@) && final(self).flow_list()
                    == old(self).flow_list() && msg@ == "Flow '"@ + flow.name@
                    + "' already exists"@,
            },
    {
        let msg = concat3("Flow '", flow.name.as_str(), "' already exists");
        if add_named(&mut self.flows, flow) {
            Ok(())
        } else {
            Err(msg)
        }
    }

    /// Adds an auxiliary unless one of that name is there.
    pub fn add_auxiliary(&mut self, aux: Auxiliary) -> (r: Result<(), String>)
        ensures
            old(self).names_are_distinct() ==> final(self).names_are_distinct(),
            final(self).info() == old(self).info(),
            final(self).time_config() == old(self).time_config(),
            final(self).stock_list() == old(self).stock_list(),
            final(self).flow_list() == old(self).flow_list(),
            final(self).parameter_list() == old(self).parameter_list(),
            final(self).dimension_list() == old(self).dimension_list(),
            final(self).lookup_list() == old(self).lookup_list(),
            match r {
                Ok(_) => !holds(old(self).auxiliary_list(), aux.name@) && final(self).auxiliary_list() == old(self).auxiliary_list().push(aux),
                Err(msg) => holds(old(self).auxiliary_list(), aux.name@) && final(self).auxiliary_list() == old(self).auxiliary_list() && msg@ == "Auxiliary '"@
                    + aux.name@ + "' already exists"@,
            },
    {
        let msg = concat3("Auxiliary '", aux.name.as_str(), "' already exists");
        if add_named(&mut self.auxiliaries, aux) {
            Ok(())
        } else {
            Err(msg)
        }
    }

    /// Adds a parameter unless one of that name is there.
    pub fn add_parameter(&mut self, param: Parameter) -> (r: Result<(), String>)
        ensures
            old(self).names_are_distinct() ==> final(self).names_are_distinct(),
            final(self).info() == old(self).info(),
            final(self).time_config() == old(self).time_config(),
            final(self).stock_list() == old(self).stock_list(),
            final(self).flow_list() == old(self).flow_list(),
            final(self).auxiliary_list() == old(self).auxiliary_list(),
            final(self).dimension_list() == old(self).dimension_list(),
            final(self).lookup_list() == old(self).lookup_list(),
            match r {
                Ok(_) => !holds(old(self).parameter_list(), param.name@) && final(self).parameter_list() == old(self).parameter_list().push(param),
                Err(msg) => holds(old(self).parameter_list(), param.name@) && final(self).parameter_list() == old(self).parameter_list() && msg@ == "Parameter '"@
                    + param.name@ + "' already exists"@,
            },
    {
        let msg = concat3("Parameter '", param.name.as_str(), "' already exists");
        if add_named(&mut self.parameters, param) {
            Ok(())
        } else {
            Err(msg)
        }
    }

    /// Adds a dimension unless one of that name is there.
    pub fn add_dimension(&mut self, dimension: Dimension) -> (r: Result<(), String>)
        ensures
            old(self).names_are_distinct() ==> final(self).names_are_distinct(),
            final(self).info() == old(self).info(),
            final(self).time_config() == old(self).time_config(),
            final(self).stock_list() == old(self).stock_list(),
            final(self).flow_list() == old(self).flow_list(),
            final(self).auxiliary_list() == old(self).auxiliary_list(),
            final(self).parameter_list() == old(self).parameter_list(),
            final(self).lookup_list() == old(self).lookup_list(),
            match r {
                Ok(_) => !holds(old(self).dimension_list(), dimension.name@) && final(self).dimension_list() == old(self).dimension_list().push(dimension),
                Err(msg) => holds(old(self).dimension_list(), dimension.name@) && final(self).dimension_list() == old(self).dimension_list() && msg@ == "Dimension '"@
                    + dimension.name@ + "' already exists"@,
            },
    {
        let msg = concat3("Dimension '", dimension.name.as_str(), "' already exists");
        if add_named(&mut self.dimensions, dimension) {
            Ok(())
        } else {
            Err(msg)
        }
    }

    /// Adds a lookup table unless one of that name is there.
    pub fn add_lookup(&mut self, lookup: LookupTable) -> (r: Result<(), String>)
        ensures
            old(self).names_are_distinct() ==> final(self).names_are_distinct(),
            final(self).info() == old(self).info(),
            final(self).time_config() == old(self).time_config(),
            final(self).stock_list() == old(self).stock_list(),
            final(self).flow_list() == old(self).flow_list(),
            final(self).auxiliary_list() == old(self).auxiliary_list(),
            final(self).parameter_list() == old(self).parameter_list(),
            final(self).dimension_list() == old(self).dimension_list(),
            match r {
                Ok(_) => !holds(old(self).lookup_list(), lookup.name@) && final(self).lookup_list()
                    == old(self).lookup_list().push(lookup),
                Err(msg) => holds(old(self).lookup_list(), lookup.name@) && final(self).lookup_list() == old(self).lookup_list() && msg@ == "Lookup table '"@
                    + lookup.name@ + "' already exists"@,
            },
    {
        let msg = concat3("Lookup table '", lookup.name.as_str(), "' already exists");
        if add_named(&mut self.lookups, lookup) {
            Ok(())
        } else {
            Err(msg)
        }
    }

    /// Gives the parameter called `name` a new value.
    pub fn set_parameter(&mut self, name: &str, value: Number) -> (r: Result<(), String>)
        ensures
            final(self).info() == old(self).info(),
            final(self).time_config() == old(self).time_config(),
            final(self).stock_list() == old(self).stock_list(),
            final(self).flow_list() == old(self).flow_list(),
            final(self).auxiliary_list() == old(self).auxiliary_list(),
            final(self).dimension_list() == old(self).dimension_list(),
            final(self).lookup_list() == old(self).lookup_list(),
            match r {
                Ok(_) => holds(old(self).parameter_list(), name@) && final(self).parameter_list()
                    == old(self).parameter_list().update(
                    position_of(old(self).parameter_list(), name@),
                    (Parameter {
                        value,
                        ..old(self).parameter_list()[position_of(old(self).parameter_list(), name@)]
                    }),
                ),
                Err(msg) => !holds(old(self).parameter_list(), name@) && final(self).parameter_list() == old(self).parameter_list() && msg@ == "Parameter '"@ + name@
                    + "' not found"@,
            },
    {
        match find_named(&self.parameters, name) {
            Some(i) => {
                let current = &self.parameters[i];
                let updated = Parameter {
                    name: current.name.clone(),
                    value,
                    units: match &current.units {
                        Some(u) => Some(u.clone()),
                        None => None,
                    },
                    description: match &current.description {
                        Some(d) => Some(d.clone()),
                        None => None,
                    },
                };
                self.parameters.set(i, updated);
                Ok(())
            },
            None => Err(concat3("Parameter '", name, "' not found")),
        }
    }

    /// Checks that the model can be run. Of several faults the first is
    /// reported: the time step, then the time range, then a flow that a stock
    /// names and the model does not have.
    pub fn validate(&self) -> (r: Result<(), ValidationError>)
        ensures
            r is Ok <==> self.runnable(),
            r matches Err(e) ==> match e.kind {
                ValidationErrorKind::TimeStep => !self.time_config().step_is_positive(),
                ValidationErrorKind::TimeRange => self.time_config().step_is_positive()
                    && !self.time_config().range_is_ordered(),
                ValidationErrorKind::MissingFlow => self.time_config().step_is_positive()
                    && self.time_config().range_is_ordered() && !holds(self.flow_list(), e.flow@)
                    && exists|i: int|
                    0 <= i < self.stock_list().len() && (#[trigger] self.stock_list()[i]).name@
                        == e.stock@ && (names_hold(self.stock_list()[i].inflows@, e.flow@)
                        || names_hold(self.stock_list()[i].outflows@, e.flow@)),
            },
    {
        let zero = Number::zero();
        if !zero.lt(&self.time.dt) {
            return Err(
                ValidationError {
                    kind: ValidationErrorKind::TimeStep,
                    stock: String::new(),
                    flow: String::new(),
                },
            );
        }
        if !self.time.start.le(&self.time.stop) {
            return Err(
                ValidationError {
                    kind: ValidationErrorKind::TimeRange,
                    stock: String::new(),
                    flow: String::new(),
                },
            );
        }
        let mut i: usize = 0;
        while i < self.stocks.len()
            invariant
                i <= self.stocks@.len(),
                self.time_config().step_is_positive(),
                self.time_config().range_is_ordered(),
                forall|j: int|
                    0 <= j < i ==> all_flows(self.flows@, (#[trigger] self.stocks@[j]).inflows@)
                        && all_flows(self.flows@, self.stocks@[j].outflows@),
            decreases self.stocks@.len() - i,
        {
            let stock = &self.stocks[i];
            if let Some(k) = first_missing(&self.flows, &stock.inflows) {
                assert(names_hold(stock.inflows@, stock.inflows@[k as int]@));
                assert(self.stock_list()[i as int] == *stock);
                return Err(
                    ValidationError {
                        kind: ValidationErrorKind::MissingFlow,
                        stock: stock.name.clone(),
                        flow: stock.inflows[k].clone(),
                    },
                );
            }
            if let Some(k) = first_missing(&self.flows, &stock.outflows) {
                assert(names_hold(stock.outflows@, stock.outflows@[k as int]@));
                assert(self.stock_list()[i as int] == *stock);
                return Err(
                    ValidationError {
                        kind: ValidationErrorKind::MissingFlow,
                        stock: stock.name.clone(),
                        flow: stock.outflows[k].clone(),
                    },
                );
            }
            i += 1;
        }
        Ok(())
    }

    /// The positions, among the flows of the model, of the flows called `names`.
    /// Fails on the first name that is no flow, with its position in `names`.
    pub fn flow_positions(&self, names: &Vec<String>) -> (r: Result<Vec<usize>, usize>)
        ensures
            match r {
                Ok(at) => all_flows(self.flow_list(), names@) && at@.len() == names@.len()
                    && forall|k: int|
                    0 <= k < names@.len() ==> first_at(
                        self.flow_list(),
                        names@[k]@,
                        (#[trigger] at@[k]) as int,
                    ),
                Err(k) => k < names@.len() && !holds(self.flow_list(), names@[k as int]@)
                    && forall|j: int|
                    0 <= j < k ==> holds(self.flow_list(), (#[trigger] names@[j])@),
            },
    {
        let mut at: Vec<usize> = Vec::new();
        let mut k: usize = 0;
        while k < names.len()
            invariant
                k <= names@.len(),
                at@.len() == k,
                forall|j: int| 0 <= j < k ==> holds(self.flows@, (#[trigger] names@[j])@),
                forall|j: int|
                    0 <= j < k ==> first_at(self.flows@, names@[j]@, (#[trigger] at@[j]) as int),
            decreases names@.len() - k,
        {
            match find_named(&self.flows, names[k].as_str()) {
                Some(p) => {
                    at.push(p);
                },
                None => {
                    return Err(k);
                },
            }
            k += 1;
        }
        Ok(at)
    }

    /// The value of the variable called `name`: a parameter first, then a stock,
    /// a flow or an auxiliary of the state.
    pub fn get_variable(&self, name: &str, state: &SimulationState) -> (r: Result<Number, String>)
        ensures
            match r {
                Ok(v) => variable_value(*self, *state, name@) == Some(v),
                Err(msg) => variable_value(*self, *state, name@) is None && msg@ == "Variable '"@
                    + name@ + "' not found"@,
            },
    {
        if let Some(i) = find_named(&self.parameters, name) {
            return Ok(self.parameters[i].value);
        }
        if let Some(i) = find_named(&state.stocks, name) {
            return Ok(state.stocks[i].value);
        }
        if let Some(i) = find_named(&state.flows, name) {
            return Ok(state.flows[i].value);
        }
        if let Some(i) = find_named(&state.auxiliaries, name) {
            return Ok(state.auxiliaries[i].value);
        }
        Err(concat3("Variable '", name, "' not found"))
    }
}

} // verus!

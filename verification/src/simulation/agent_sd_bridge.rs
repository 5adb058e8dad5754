//! The coupling of agents and stock-and-flow variables: what is carried from
//! the one to the other, and the steps of it that need no arithmetic.

use vstd::prelude::*;
use vstd::string::*;
use crate::model::named::Named;
use crate::number::Number;
use crate::simulation::abm::{kept_agents, AgentPopulation, AgentState};

verus! {

/// How the values of an attribute over a population become one value.
#[derive(Debug, Clone, Copy, PartialEq, Eq, Structural)]
pub enum AggregationType {
    Sum,
    Mean,
    Count,
    Max,
    Min,
    Median,
}

/// An attribute of the agents that feeds a variable.
#[derive(Debug, Clone)]
pub struct AttributeMapping {
    pub attribute_name: String,
    pub sd_variable: String,
    pub aggregation: AggregationType,
}

/// How the value of a variable becomes the value of an attribute.
#[derive(Debug, Clone, Copy, PartialEq, Eq)]
pub enum MappingType {
    /// The attribute takes the value.
    Direct,
    /// The attribute takes the value times a scale.
    Scaled(Number),
    /// The attribute takes the value divided by the number of agents.
    PerCapita,
    /// The attribute takes the value where it is above a threshold.
    Conditional(Number),
}

/// A variable that feeds an attribute of the agents.
#[derive(Debug, Clone)]
pub struct SDMapping {
    pub sd_variable: String,
    pub attribute_name: String,
    pub mapping_type: MappingType,
}

/// How one type of agent is coupled to the variables.
#[derive(Debug, Clone)]
pub struct AgentCoupling {
    pub attributes_to_sd: Vec<AttributeMapping>,
    pub sd_to_attributes: Vec<SDMapping>,
    /// The flow that makes agents.
    pub creation_flow: Option<String>,
    /// The flow that takes agents away.
    pub destruction_flow: Option<String>,
    /// The number of agents that one unit of flow stands for.
    pub agents_per_flow_unit: Number,
}

impl AgentCoupling {
    /// A coupling that carries nothing, with one agent for each unit of flow.
    pub fn new() -> (r: AgentCoupling)
        ensures
            r.attributes_to_sd@.len() == 0,
            r.sd_to_attributes@.len() == 0,
            r.creation_flow is None,
            r.destruction_flow is None,
            r.agents_per_flow_unit.bits == crate::number::ONE_BITS,
    {
        AgentCoupling {
            attributes_to_sd: Vec::new(),
            sd_to_attributes: Vec::new(),
            creation_flow: None,
            destruction_flow: None,
            agents_per_flow_unit: Number::one(),
        }
    }
}

/// The value that a conditional mapping gives an attribute: the value of the
/// variable where the attribute, or zero where the agent has none, is above
/// the threshold; else what the attribute was.
pub fn conditional_value(current: Option<Number>, threshold: Number, sd_value: Number) -> (r: Number)
    ensures
        r == {
            let was = match current {
                Some(c) => c,
                None => Number { bits: 0 },
            };
            if threshold.below(was) {
                sd_value
            } else {
                was
            }
        },
{
    let was = match current {
        Some(c) => c,
        None => Number::zero(),
    };
    if was.gt(&threshold) {
        sd_value
    } else {
        was
    }
}

/// The two places of a sorted list of `n` values between which its median
/// lies: the same place twice where `n` is odd.
pub fn median_places(n: usize) -> (r: (usize, usize))
    requires
        n >= 1,
    ensures
        r.1 == n / 2,
        r.0 == if n % 2 == 0 {
            n / 2 - 1
        } else {
            (n / 2) as int
        },
        r.0 <= r.1 < n,
{
    if n % 2 == 0 {
        (n / 2 - 1, n / 2)
    } else {
        (n / 2, n / 2)
    }
}

/// The agents without the first `count` of them.
pub fn remove_first(population: &mut AgentPopulation, count: usize)
    ensures
        final(population).agent_type == old(population).agent_type,
        final(population).next_id == old(population).next_id,
        final(population).agents@ == if count >= old(population).agents@.len() {
            Seq::<AgentState>::empty()
        } else {
            old(population).agents@.skip(count as int)
        },
{
    let ghost all = population.agents@;
    let mut removed: usize = 0;
    assert(all.skip(0) =~= all);
    while removed < count && population.agents.len() > 0
        invariant
            population.agent_type == old(population).agent_type,
            population.next_id == old(population).next_id,
            removed <= count,
            removed <= all.len(),
            all == old(population).agents@,
            population.agents@ == all.skip(removed as int),
        decreases count - removed,
    {
        let ghost before = population.agents@;
        population.agents.remove(0);
        assert(population.agents@ =~= all.skip(removed + 1));
        removed += 1;
    }
    proof {
        if count >= all.len() {
            assert(population.agents@ =~= Seq::<AgentState>::empty());
        }
    }
}

} // verus!

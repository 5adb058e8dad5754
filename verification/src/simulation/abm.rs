//! Agents: individuals with attributes, gathered in populations by type.

use vstd::prelude::*;
use vstd::string::*;
use crate::model::named::{
    find_named, holds, is_put, labels, lemma_position_by_labels, lemma_position_of,
    lemma_position_pushed, position_of, put_named, Named,
};
use crate::number::Number;
use crate::text::concat3;

verus! {

/// A number under a name.
#[derive(Debug, Clone)]
pub struct Attribute {
    pub name: String,
    pub value: Number,
}

impl Named for Attribute {
    open spec fn label(&self) -> Seq<char> {
        self.name@
    }

    fn name_ref(&self) -> (r: &String) {
        &self.name
    }
}

/// The value of the attribute called `key`.
pub open spec fn attribute_value(attributes: Seq<Attribute>, key: Seq<char>) -> Option<Number> {
    if holds(attributes, key) {
        Some(attributes[position_of(attributes, key)].value)
    } else {
        None
    }
}

/// Gives the attribute called `key` a value, in place of the one it had.
pub fn put_attribute(attributes: &mut Vec<Attribute>, key: String, value: Number)
    ensures
        attribute_value(final(attributes)@, key@) == Some(value),
        forall|other: Seq<char>|
            other != key@ ==> attribute_value(final(attributes)@, other) == attribute_value(
                old(attributes)@,
                other,
            ),
{
    let ghost before = attributes@;
    match find_named(attributes, key.as_str()) {
        Some(i) => {
            attributes.set(i, Attribute { name: key, value });
            proof {
                assert(labels(attributes@) =~= labels(before));
                assert forall|other: Seq<char>|
                    attribute_value(attributes@, other) == if other == key@ {
                        Some(value)
                    } else {
                        attribute_value(before, other)
                    } by {
                    lemma_position_by_labels(attributes@, before, other);
                    lemma_position_of(before, other);
                }
            }
        },
        None => {
            let ghost item = Attribute { name: key, value };
            attributes.push(Attribute { name: key, value });
            proof {
                assert forall|other: Seq<char>|
                    attribute_value(attributes@, other) == if other == key@ {
                        Some(value)
                    } else {
                        attribute_value(before, other)
                    } by {
                    lemma_position_pushed(before, item, other);
                    lemma_position_of(before, other);
                    if holds(before, other) {
                        assert(attributes@[position_of(before, other)] == before[position_of(
                            before,
                            other,
                        )]);
                    }
                }
            }
        },
    }
}

/// A copy of the attributes.
pub fn copy_attributes(attributes: &Vec<Attribute>) -> (r: Vec<Attribute>)
    ensures
        r@.len() == attributes@.len(),
        forall|i: int|
            0 <= i < r@.len() ==> (#[trigger] r@[i]).name@ == attributes@[i].name@ && r@[i].value
                == attributes@[i].value,
        forall|key: Seq<char>| attribute_value(r@, key) == attribute_value(attributes@, key),
{
    let mut r: Vec<Attribute> = Vec::new();
    let mut i: usize = 0;
    while i < attributes.len()
        invariant
            i <= attributes@.len(),
            r@.len() == i,
            forall|k: int|
                0 <= k < i ==> (#[trigger] r@[k]).name@ == attributes@[k].name@ && r@[k].value
                    == attributes@[k].value,
        decreases attributes@.len() - i,
    {
        r.push(Attribute { name: attributes[i].name.clone(), value: attributes[i].value });
        i += 1;
    }
    proof {
        assert(labels(r@) =~= labels(attributes@));
        assert forall|key: Seq<char>| attribute_value(r@, key) == attribute_value(
            attributes@,
            key,
        ) by {
            lemma_position_by_labels(r@, attributes@, key);
            lemma_position_of(r@, key);
        }
    }
    r
}

/// One agent.
#[derive(Debug, Clone)]
pub struct AgentState {
    pub id: usize,
    pub agent_type: String,
    pub attributes: Vec<Attribute>,
    /// Whether the agent is alive.
    pub active: bool,
}

impl AgentState {
    /// A living agent without attributes.
    pub fn new(id: usize, agent_type: String) -> (r: AgentState)
        ensures
            r.id == id,
            r.agent_type == agent_type,
            r.attributes@.len() == 0,
            r.active,
    {
        AgentState { id, agent_type, attributes: Vec::new(), active: true }
    }

    /// The value of an attribute.
    pub fn get(&self, key: &str) -> (r: Option<Number>)
        ensures
            r == attribute_value(self.attributes@, key@),
    {
        match find_named(&self.attributes, key) {
            Some(i) => Some(self.attributes[i].value),
            None => None,
        }
    }

    /// Gives an attribute a value.
    pub fn set(&mut self, key: String, value: Number)
        ensures
            final(self).id == old(self).id,
            final(self).agent_type == old(self).agent_type,
            final(self).active == old(self).active,
            attribute_value(final(self).attributes@, key@) == Some(value),
            forall|other: Seq<char>|
                other != key@ ==> attribute_value(final(self).attributes@, other)
                    == attribute_value(old(self).attributes@, other),
    {
        put_attribute(&mut self.attributes, key, value);
    }

    /// Marks the agent as dead.
    pub fn deactivate(&mut self)
        ensures
            !final(self).active,
            final(self).id == old(self).id,
            final(self).agent_type == old(self).agent_type,
            final(self).attributes == old(self).attributes,
    {
        self.active = false;
    }
}

/// What an agent does at a step.
#[derive(Debug)]
pub enum AgentRule {
    /// Gives an attribute the value of an expression.
    SetAttribute { attribute: String, expression: String },
    /// Follows one list of rules where the condition holds, else the other.
    Conditional { condition: String, then_rules: Vec<AgentRule>, else_rules: Vec<AgentRule> },
    /// The agent dies.
    Die,
}

/// A kind of agent: the attributes an agent of it starts with, and its rules.
#[derive(Debug)]
pub struct AgentType {
    pub name: String,
    pub initial_attributes: Vec<Attribute>,
    pub rules: Vec<AgentRule>,
}

impl Named for AgentType {
    open spec fn label(&self) -> Seq<char> {
        self.name@
    }

    fn name_ref(&self) -> (r: &String) {
        &self.name
    }
}

/// Whether one of the rules is that the agent dies.
pub open spec fn has_die_rule(rules: Seq<AgentRule>) -> bool {
    exists|i: int| 0 <= i < rules.len() && #[trigger] rules[i] is Die
}

impl AgentType {
    pub fn new(name: String) -> (r: AgentType)
        ensures
            r.name == name,
            r.initial_attributes@.len() == 0,
            r.rules@.len() == 0,
    {
        AgentType { name, initial_attributes: Vec::new(), rules: Vec::new() }
    }

    /// Gives the agents of the type an attribute to start with.
    pub fn add_attribute(&mut self, name: String, initial_value: Number)
        ensures
            final(self).name == old(self).name,
            final(self).rules == old(self).rules,
            attribute_value(final(self).initial_attributes@, name@) == Some(initial_value),
            forall|other: Seq<char>|
                other != name@ ==> attribute_value(final(self).initial_attributes@, other)
                    == attribute_value(old(self).initial_attributes@, other),
    {
        put_attribute(&mut self.initial_attributes, name, initial_value);
    }

    pub fn add_rule(&mut self, rule: AgentRule)
        ensures
            final(self).name == old(self).name,
            final(self).initial_attributes == old(self).initial_attributes,
            final(self).rules@ == old(self).rules@.push(rule),
    {
        self.rules.push(rule);
    }

    /// A living agent of the type with the attributes it starts with.
    pub fn create_agent(&self, id: usize) -> (r: AgentState)
        ensures
            r.id == id,
            r.agent_type@ == self.name@,
            r.active,
            forall|key: Seq<char>|
                attribute_value(r.attributes@, key) == attribute_value(
                    self.initial_attributes@,
                    key,
                ),
    {
        AgentState {
            id,
            agent_type: self.name.clone(),
            attributes: copy_attributes(&self.initial_attributes),
            active: true,
        }
    }

    /// Whether an agent of the type dies at a step.
    pub fn dies(&self) -> (r: bool)
        ensures
            r == has_die_rule(self.rules@),
    {
        let mut i: usize = 0;
        while i < self.rules.len()
            invariant
                i <= self.rules@.len(),
                forall|k: int| 0 <= k < i ==> !(#[trigger] self.rules@[k] is Die),
            decreases self.rules@.len() - i,
        {
            if let AgentRule::Die = &self.rules[i] {
                return true;
            }
            i += 1;
        }
        false
    }
}

/// How many of the first `count` agents are alive.
pub open spec fn living(agents: Seq<AgentState>, count: int) -> int
    decreases count,
{
    if count <= 0 {
        0
    } else {
        living(agents, count - 1) + if agents[count - 1].active {
            1int
        } else {
            0int
        }
    }
}

/// Of the first `count` agents, those that are kept: the dead ones where
/// `only_dead` is set, and those with another identifier than `without`.
pub open spec fn kept_agents(agents: Seq<AgentState>, only_dead: bool, without: Option<usize>, count: int)
    -> Seq<AgentState>
    decreases count,
{
    if count <= 0 {
        Seq::empty()
    } else {
        let a = agents[count - 1];
        let before = kept_agents(agents, only_dead, without, count - 1);
        if (only_dead && a.active) || without == Some(a.id) {
            before
        } else {
            before.push(a)
        }
    }
}

/// The largest (or, where `least` is set, the smallest) value that the living
/// among the first `count` agents have for the attribute; minus infinity (or
/// infinity) where none has it.
pub open spec fn extreme(agents: Seq<AgentState>, attribute: Seq<char>, least: bool, count: int)
    -> Number
    decreases count,
{
    if count <= 0 {
        if least {
            Number { bits: INFINITY }
        } else {
            Number { bits: MINUS_INFINITY }
        }
    } else {
        let before = extreme(agents, attribute, least, count - 1);
        let a = agents[count - 1];
        match attribute_value(a.attributes@, attribute) {
            Some(v) => if !a.active {
                before
            } else if least {
                before.smaller(v)
            } else {
                before.larger(v)
            },
            None => before,
        }
    }
}

/// The bits of infinity.
pub const INFINITY: u64 = 0x7ff0_0000_0000_0000;

/// The bits of minus infinity.
pub const MINUS_INFINITY: u64 = 0xfff0_0000_0000_0000;

/// The first of the agents with the identifier.
pub open spec fn agent_at(agents: Seq<AgentState>, id: usize, i: int) -> bool {
    0 <= i < agents.len() && agents[i].id == id && forall|j: int|
        0 <= j < i ==> (#[trigger] agents[j]).id != id
}

/// The agents of one type.
#[derive(Debug)]
pub struct AgentPopulation {
    pub agent_type: String,
    /// The agents, in the order in which they were made.
    pub agents: Vec<AgentState>,
    /// The identifier that the next agent gets.
    pub next_id: usize,
}

impl Named for AgentPopulation {
    open spec fn label(&self) -> Seq<char> {
        self.agent_type@
    }

    fn name_ref(&self) -> (r: &String) {
        &self.agent_type
    }
}

impl AgentPopulation {
    /// The agents, in the order in which they were made.
    pub open spec fn members(&self) -> Seq<AgentState> {
        self.agents@
    }

    /// The identifier that the next agent gets.
    pub open spec fn next(&self) -> usize {
        self.next_id
    }

    pub fn new(agent_type: String) -> (r: AgentPopulation)
        ensures
            r.agent_type == agent_type,
            r.members().len() == 0,
            r.next() == 0,
    {
        AgentPopulation { agent_type, agents: Vec::new(), next_id: 0 }
    }

    /// Makes an agent of the type and gives its identifier.
    pub fn create_agent(&mut self, agent_type: &AgentType) -> (id: usize)
        requires
            old(self).next() < usize::MAX,
        ensures
            id == old(self).next(),
            final(self).next() == id + 1,
            final(self).agent_type == old(self).agent_type,
            final(self).members().len() == old(self).members().len() + 1,
            final(self).members().drop_last() == old(self).members(),
            final(self).members().last().id == id,
            final(self).members().last().active,
            final(self).members().last().agent_type@ == agent_type.name@,
            forall|key: Seq<char>|
                attribute_value(final(self).members().last().attributes@, key) == attribute_value(
                    agent_type.initial_attributes@,
                    key,
                ),
    {
        let id = self.next_id;
        self.next_id = self.next_id + 1;
        let ghost before = self.agents@;
        self.agents.push(agent_type.create_agent(id));
        assert(self.agents@.drop_last() =~= before);
        id
    }

    /// Takes the agents with the identifier away.
    pub fn remove_agent(&mut self, id: usize)
        ensures
            final(self).members() == kept_agents(
                old(self).members(),
                false,
                Some(id),
                old(self).members().len() as int,
            ),
            final(self).next() == old(self).next(),
            final(self).agent_type == old(self).agent_type,
    {
        self.keep(false, Some(id));
    }

    fn keep(&mut self, only_dead: bool, without: Option<usize>)
        ensures
            final(self).members() == kept_agents(
                old(self).members(),
                only_dead,
                without,
                old(self).members().len() as int,
            ),
            final(self).next() == old(self).next(),
            final(self).agent_type == old(self).agent_type,
    {
        let ghost all = self.agents@;
        let mut rest: Vec<AgentState> = Vec::new();
        assert(rest@ =~= kept_agents(all, only_dead, without, 0));
        while self.agents.len() > 0
            invariant
                self.next_id == old(self).next_id,
                self.agent_type == old(self).agent_type,
                all == old(self).agents@,
                self.agents@.len() <= all.len(),
                self.agents@ == all.take(self.agents@.len() as int),
                kept_agents(all, only_dead, without, all.len() as int) == kept_agents(
                    all,
                    only_dead,
                    without,
                    self.agents@.len() as int,
                ) + rest@.reverse(),
            decreases self.agents@.len(),
        {
            let ghost n = self.agents@.len() as int;
            let ghost before = rest@;
            let a = self.agents.pop().unwrap();
            assert(a == all[n - 1]);
            assert(self.agents@ =~= all.take(n - 1));
            let skip = match without {
                Some(w) => a.id == w,
                None => false,
            };
            if !((only_dead && a.active) || skip) {
                rest.push(a);
                assert(rest@.reverse() =~= seq![a] + before.reverse());
                assert(kept_agents(all, only_dead, without, n) + before.reverse() =~= kept_agents(
                    all,
                    only_dead,
                    without,
                    n - 1,
                ) + rest@.reverse());
            }
        }
        let ghost kept = rest@.reverse();
        assert(kept_agents(all, only_dead, without, 0) + kept =~= kept);
        let mut back: Vec<AgentState> = Vec::new();
        while rest.len() > 0
            invariant
                back@ + rest@.reverse() == kept,
            decreases rest@.len(),
        {
            let ghost r0 = rest@;
            let ghost b0 = back@;
            let a = rest.pop().unwrap();
            back.push(a);
            assert(r0.reverse() =~= seq![a] + rest@.reverse());
            assert(back@ + rest@.reverse() =~= b0 + r0.reverse());
        }
        assert(back@ + rest@.reverse() =~= back@);
        self.agents = back;
    }

    /// How many agents are alive.
    pub fn count_active(&self) -> (r: usize)
        ensures
            r == living(self.members(), self.members().len() as int),
    {
        let mut count: usize = 0;
        let mut i: usize = 0;
        while i < self.agents.len()
            invariant
                i <= self.agents@.len(),
                count <= i,
                count == living(self.agents@, i as int),
            decreases self.agents@.len() - i,
        {
            if self.agents[i].active {
                count += 1;
            }
            i += 1;
        }
        count
    }

    /// The agents, in the order in which they were made.
    pub fn all_agents(&self) -> (r: &Vec<AgentState>)
        ensures
            r@ == self.members(),
    {
        &self.agents
    }

    fn position(&self, id: usize) -> (r: Option<usize>)
        ensures
            match r {
                Some(i) => agent_at(self.members(), id, i as int),
                None => forall|j: int|
                    0 <= j < self.members().len() ==> (#[trigger] self.members()[j]).id != id,
            },
    {
        let mut i: usize = 0;
        while i < self.agents.len()
            invariant
                i <= self.agents@.len(),
                forall|j: int| 0 <= j < i ==> (#[trigger] self.agents@[j]).id != id,
            decreases self.agents@.len() - i,
        {
            if self.agents[i].id == id {
                return Some(i);
            }
            i += 1;
        }
        None
    }

    /// The agent with the identifier.
    pub fn get_agent(&self, id: usize) -> (r: Option<&AgentState>)
        ensures
            match r {
                Some(a) => exists|i: int| agent_at(self.members(), id, i) && self.members()[i] == *a,
                None => forall|j: int|
                    0 <= j < self.members().len() ==> (#[trigger] self.members()[j]).id != id,
            },
    {
        match self.position(id) {
            Some(i) => Some(&self.agents[i]),
            None => None,
        }
    }

    /// Gives an attribute of the agent with the identifier a value; says
    /// whether there is such an agent.
    pub fn set_attribute(&mut self, id: usize, key: String, value: Number) -> (r: bool)
        ensures
            final(self).next() == old(self).next(),
            final(self).agent_type == old(self).agent_type,
            final(self).members().len() == old(self).members().len(),
            r == exists|i: int| agent_at(old(self).members(), id, i),
            forall|i: int|
                0 <= i < old(self).members().len() && !agent_at(old(self).members(), id, i)
                    ==> final(self).members()[i] == old(self).members()[i],
            forall|i: int|
                agent_at(old(self).members(), id, i) ==> {
                    let a = final(self).members()[i];
                    let b = old(self).members()[i];
                    &&& a.id == id
                    &&& a.active == b.active
                    &&& a.agent_type == b.agent_type
                    &&& attribute_value(a.attributes@, key@) == Some(value)
                    &&& forall|other: Seq<char>|
                        other != key@ ==> attribute_value(a.attributes@, other) == attribute_value(
                            b.attributes@,
                            other,
                        )
                },
    {
        match self.position(id) {
            Some(i) => {
                let mut agent = self.agents.remove(i);
                agent.set(key, value);
                self.agents.insert(i, agent);
                true
            },
            None => false,
        }
    }

    /// Marks the agent with the identifier as dead; says whether there is such
    /// an agent.
    pub fn deactivate_agent(&mut self, id: usize) -> (r: bool)
        ensures
            final(self).next() == old(self).next(),
            final(self).agent_type == old(self).agent_type,
            final(self).members().len() == old(self).members().len(),
            r == exists|i: int| agent_at(old(self).members(), id, i),
            forall|i: int|
                0 <= i < old(self).members().len() && !agent_at(old(self).members(), id, i)
                    ==> final(self).members()[i] == old(self).members()[i],
            forall|i: int|
                agent_at(old(self).members(), id, i) ==> final(self).members()[i] == (AgentState {
                    active: false,
                    ..old(self).members()[i]
                }),
    {
        match self.position(id) {
            Some(i) => {
                let mut agent = self.agents.remove(i);
                agent.deactivate();
                self.agents.insert(i, agent);
                true
            },
            None => false,
        }
    }

    fn extreme_attribute(&self, attribute: &str, least: bool) -> (r: Number)
        ensures
            r == extreme(self.members(), attribute@, least, self.members().len() as int),
    {
        let mut r = if least {
            Number::from_bits(INFINITY)
        } else {
            Number::from_bits(MINUS_INFINITY)
        };
        let mut i: usize = 0;
        while i < self.agents.len()
            invariant
                i <= self.agents@.len(),
                r == extreme(self.agents@, attribute@, least, i as int),
            decreases self.agents@.len() - i,
        {
            if self.agents[i].active {
                if let Some(v) = self.agents[i].get(attribute) {
                    r = if least {
                        r.min(v)
                    } else {
                        r.max(v)
                    };
                }
            }
            i += 1;
        }
        r
    }

    /// The largest value that a living agent has for the attribute.
    pub fn max_attribute(&self, attribute: &str) -> (r: Number)
        ensures
            r == extreme(self.members(), attribute@, false, self.members().len() as int),
    {
        self.extreme_attribute(attribute, false)
    }

    /// The smallest value that a living agent has for the attribute.
    pub fn min_attribute(&self, attribute: &str) -> (r: Number)
        ensures
            r == extreme(self.members(), attribute@, true, self.members().len() as int),
    {
        self.extreme_attribute(attribute, true)
    }

    /// Lets the living agents die and takes them away.
    pub fn let_die(&mut self)
        ensures
            final(self).members() == kept_agents(
                old(self).members(),
                true,
                None,
                old(self).members().len() as int,
            ),
            final(self).next() == old(self).next(),
            final(self).agent_type == old(self).agent_type,
    {
        self.keep(true, None);
    }
}

/// How many living agents the first `count` populations have.
pub open spec fn living_in(populations: Seq<AgentPopulation>, count: int) -> int
    decreases count,
{
    if count <= 0 {
        0
    } else {
        living_in(populations, count - 1) + living(
            populations[count - 1].agents@,
            populations[count - 1].agents@.len() as int,
        )
    }
}

/// The number of the living is never negative and never more than the number counted.
pub proof fn lemma_living_bounds(agents: Seq<AgentState>, count: int)
    requires
        0 <= count,
    ensures
        0 <= living(agents, count) <= count,
    decreases count,
{
    if count > 0 {
        lemma_living_bounds(agents, count - 1);
    }
}

/// The types of agents and the population of each.
#[derive(Debug)]
pub struct AgentManager {
    pub agent_types: Vec<AgentType>,
    pub populations: Vec<AgentPopulation>,
}

impl AgentManager {
    /// No types and no populations.
    pub fn new() -> (r: AgentManager)
        ensures
            r.agent_types@.len() == 0,
            r.populations@.len() == 0,
    {
        AgentManager { agent_types: Vec::new(), populations: Vec::new() }
    }

    /// Makes a type known, in place of one of the same name, and gives it a
    /// population without agents.
    pub fn register_type(&mut self, agent_type: AgentType)
        ensures
            is_put(old(self).agent_types@, agent_type, final(self).agent_types@),
            exists|fresh: AgentPopulation|
                fresh.agent_type@ == agent_type.name@ && fresh.agents@.len() == 0 && fresh.next_id
                    == 0 && is_put(old(self).populations@, fresh, final(self).populations@),
    {
        let population = AgentPopulation::new(agent_type.name.clone());
        let ghost fresh = population;
        put_named(&mut self.agent_types, agent_type);
        put_named(&mut self.populations, population);
        assert(fresh.agent_type@ == agent_type.name@ && fresh.agents@.len() == 0 && fresh.next_id
            == 0 && is_put(old(self).populations@, fresh, self.populations@));
    }

    /// Makes `count` agents of the type called `kind_name`.
    pub fn create_agents(&mut self, kind_name: &str, count: usize) -> (r: Result<(), String>)
        requires
            holds(old(self).populations@, kind_name@) ==> old(self).populations@[position_of(
                old(self).populations@,
                kind_name@,
            )].next_id + count <= usize::MAX,
        ensures
            final(self).agent_types == old(self).agent_types,
            match r {
                Ok(_) => {
                    let p = position_of(old(self).populations@, kind_name@);
                    let t = old(self).agent_types@[position_of(old(self).agent_types@, kind_name@)];
                    let before = old(self).populations@[p];
                    let after = final(self).populations@[p];
                    &&& holds(old(self).agent_types@, kind_name@)
                    &&& holds(old(self).populations@, kind_name@)
                    &&& final(self).populations@.len() == old(self).populations@.len()
                    &&& forall|k: int|
                        0 <= k < old(self).populations@.len() && k != p
                            ==> final(self).populations@[k] == old(self).populations@[k]
                    &&& after.agent_type == before.agent_type
                    &&& after.next_id == before.next_id + count
                    &&& after.agents@.len() == before.agents@.len() + count
                    &&& after.agents@.take(before.agents@.len() as int) == before.agents@
                    &&& forall|k: int|
                        before.agents@.len() <= k < after.agents@.len() ==> {
                            &&& (#[trigger] after.agents@[k]).id == before.next_id + (k
                                - before.agents@.len())
                            &&& after.agents@[k].active
                            &&& after.agents@[k].agent_type@ == t.name@
                            &&& forall|key: Seq<char>|
                                attribute_value(after.agents@[k].attributes@, key)
                                    == attribute_value(t.initial_attributes@, key)
                        }
                },
                Err(msg) => final(self).populations == old(self).populations && if !holds(
                    old(self).agent_types@,
                    kind_name@,
                ) {
                    msg@ == "Agent type '"@ + kind_name@ + "' not found"@
                } else {
                    !holds(old(self).populations@, kind_name@) && msg@ == "Population for type '"@
                        + kind_name@ + "' not found"@
                },
            },
    {
        let t = match find_named(&self.agent_types, kind_name) {
            Some(t) => t,
            None => {
                return Err(concat3("Agent type '", kind_name, "' not found"));
            },
        };
        let p = match find_named(&self.populations, kind_name) {
            Some(p) => p,
            None => {
                return Err(concat3("Population for type '", kind_name, "' not found"));
            },
        };
        let ghost before = self.populations@[p as int];
        let ghost others = self.populations@;
        let mut population = self.populations.remove(p);
        let mut c: usize = 0;
        while c < count
            invariant
                c <= count,
                t < self.agent_types@.len(),
                self.agent_types == old(self).agent_types,
                before.next_id + count <= usize::MAX,
                population.agent_type == before.agent_type,
                population.next_id == before.next_id + c,
                population.agents@.len() == before.agents@.len() + c,
                population.agents@.take(before.agents@.len() as int) == before.agents@,
                forall|k: int|
                    before.agents@.len() <= k < population.agents@.len() ==> {
                        &&& (#[trigger] population.agents@[k]).id == before.next_id + (k
                            - before.agents@.len())
                        &&& population.agents@[k].active
                        &&& population.agents@[k].agent_type@ == self.agent_types@[t as int].name@
                        &&& forall|key: Seq<char>|
                            attribute_value(population.agents@[k].attributes@, key)
                                == attribute_value(
                                self.agent_types@[t as int].initial_attributes@,
                                key,
                            )
                    },
            decreases count - c,
        {
            let ghost had = population.agents@;
            population.create_agent(&self.agent_types[t]);
            proof {
                assert(population.agents@.drop_last() == had);
                assert(population.agents@.take(before.agents@.len() as int) =~= had.take(
                    before.agents@.len() as int,
                ));
                assert forall|k: int|
                    before.agents@.len() <= k < population.agents@.len() - 1 implies (
                #[trigger] population.agents@[k]) == had[k] by {
                    assert(population.agents@.drop_last()[k] == had[k]);
                }
            }
            c += 1;
        }
        self.populations.insert(p, population);
        proof {
            assert(self.populations@.len() == others.len());
            assert forall|k: int| 0 <= k < others.len() && k != p implies self.populations@[k]
                == others[k] by {}
        }
        Ok(())
    }

    /// The population of the type called `kind_name`.
    pub fn get_population(&self, kind_name: &str) -> (r: Option<&AgentPopulation>)
        ensures
            match r {
                Some(p) => holds(self.populations@, kind_name@) && self.populations@[position_of(
                    self.populations@,
                    kind_name@,
                )] == *p,
                None => !holds(self.populations@, kind_name@),
            },
    {
        match find_named(&self.populations, kind_name) {
            Some(i) => Some(&self.populations[i]),
            None => None,
        }
    }

    /// Lets the agents follow the rules of their types for one step: where a
    /// type has the rule that the agent dies, the living agents of its
    /// population die and are taken away. Fails, leaving the populations
    /// before it as the step left them, at a population whose type is not known.
    pub fn update_agents(&mut self) -> (r: Result<(), String>)
        ensures
            final(self).agent_types == old(self).agent_types,
            final(self).populations@.len() == old(self).populations@.len(),
            r is Ok <==> forall|k: int|
                0 <= k < old(self).populations@.len() ==> holds(
                    old(self).agent_types@,
                    (#[trigger] old(self).populations@[k]).agent_type@,
                ),
            r is Ok ==> forall|k: int|
                0 <= k < old(self).populations@.len() ==> {
                    let before = old(self).populations@[k];
                    let after = #[trigger] final(self).populations@[k];
                    let t = old(self).agent_types@[position_of(
                        old(self).agent_types@,
                        before.agent_type@,
                    )];
                    &&& after.agent_type == before.agent_type
                    &&& after.next_id == before.next_id
                    &&& after.agents@ == if has_die_rule(t.rules@) {
                        kept_agents(before.agents@, true, None, before.agents@.len() as int)
                    } else {
                        before.agents@
                    }
                },
    {
        let n = self.populations.len();
        let mut k: usize = 0;
        while k < n
            invariant
                k <= n,
                n == old(self).populations@.len(),
                self.populations@.len() == n,
                self.agent_types == old(self).agent_types,
                forall|j: int| k <= j < n ==> self.populations@[j] == old(self).populations@[j],
                forall|j: int|
                    0 <= j < k ==> holds(
                        old(self).agent_types@,
                        (#[trigger] old(self).populations@[j]).agent_type@,
                    ),
                forall|j: int|
                    0 <= j < k ==> {
                        let before = old(self).populations@[j];
                        let after = #[trigger] self.populations@[j];
                        let t = old(self).agent_types@[position_of(
                            old(self).agent_types@,
                            before.agent_type@,
                        )];
                        &&& after.agent_type == before.agent_type
                        &&& after.next_id == before.next_id
                        &&& after.agents@ == if has_die_rule(t.rules@) {
                            kept_agents(before.agents@, true, None, before.agents@.len() as int)
                        } else {
                            before.agents@
                        }
                    },
            decreases n - k,
        {
            let t = match find_named(&self.agent_types, self.populations[k].agent_type.as_str()) {
                Some(t) => t,
                None => {
                    return Err(
                        concat3(
                            "Agent type '",
                            self.populations[k].agent_type.as_str(),
                            "' not found",
                        ),
                    );
                },
            };
            if self.agent_types[t].dies() {
                let ghost all = self.populations@;
                let mut population = self.populations.remove(k);
                population.let_die();
                self.populations.insert(k, population);
                assert forall|j: int| 0 <= j < n && j != k implies self.populations@[j]
                    == all[j] by {}
            }
            k += 1;
        }
        Ok(())
    }

    /// How many living agents there are in all.
    pub fn total_agent_count(&self) -> (r: usize)
        requires
            living_in(self.populations@, self.populations@.len() as int) <= usize::MAX,
        ensures
            r == living_in(self.populations@, self.populations@.len() as int),
    {
        let mut total: usize = 0;
        let mut k: usize = 0;
        while k < self.populations.len()
            invariant
                k <= self.populations@.len(),
                total == living_in(self.populations@, k as int),
                living_in(self.populations@, self.populations@.len() as int) <= usize::MAX,
            decreases self.populations@.len() - k,
        {
            proof {
                lemma_living_in_grows(
                    self.populations@,
                    k + 1,
                    self.populations@.len() as int,
                );
                lemma_living_bounds(
                    self.populations@[k as int].agents@,
                    self.populations@[k as int].agents@.len() as int,
                );
            }
            total = total + self.populations[k].count_active();
            k += 1;
        }
        total
    }

    /// How many living agents of the type called `kind_name` there are.
    pub fn count_agents(&self, kind_name: &str) -> (r: usize)
        ensures
            r == if holds(self.populations@, kind_name@) {
                let p = self.populations@[position_of(self.populations@, kind_name@)];
                living(p.agents@, p.agents@.len() as int)
            } else {
                0
            },
    {
        match self.get_population(kind_name) {
            Some(p) => p.count_active(),
            None => 0,
        }
    }
}

/// The count of the living does not fall as more populations are counted.
pub proof fn lemma_living_in_grows(populations: Seq<AgentPopulation>, a: int, b: int)
    requires
        0 <= a <= b,
    ensures
        0 <= living_in(populations, a) <= living_in(populations, b),
    decreases b,
{
    if a < b {
        lemma_living_in_grows(populations, a, b - 1);
        lemma_living_bounds(populations[b - 1].agents@, populations[b - 1].agents@.len() as int);
    } else if a > 0 {
        lemma_living_in_grows(populations, a - 1, a - 1);
        lemma_living_bounds(populations[a - 1].agents@, populations[a - 1].agents@.len() as int);
    }
}

} // verus!

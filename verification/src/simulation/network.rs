//! The network of agents: who is linked to whom, and how strongly.

use vstd::prelude::*;
use crate::number::Number;

verus! {

/// The agents that one agent is linked to, in the order in which the links were made.
#[derive(Debug, Clone)]
pub struct Links {
    pub from: usize,
    pub to: Vec<usize>,
}

/// The weight of the link from one agent to another.
#[derive(Debug, Clone, Copy)]
pub struct Weight {
    pub from: usize,
    pub to: usize,
    pub weight: Number,
}

/// Whether `i` is a place of the links of the agent `id`.
pub open spec fn links_at(edges: Seq<Links>, id: usize, i: int) -> bool {
    0 <= i < edges.len() && edges[i].from == id
}

/// Whether `i` is a place of the weight of the link from `from` to `to`.
pub open spec fn weight_at(weights: Seq<Weight>, from: usize, to: usize, i: int) -> bool {
    0 <= i < weights.len() && weights[i].from == from && weights[i].to == to
}

/// The agents that the agent `id` is linked to; none where it has no links.
pub open spec fn neighbours(edges: Seq<Links>, id: usize) -> Seq<usize> {
    if exists|i: int| links_at(edges, id, i) {
        edges[choose|i: int| links_at(edges, id, i)].to@
    } else {
        Seq::empty()
    }
}

/// The weight of the link from `from` to `to`, if one was given.
pub open spec fn weight_of(weights: Seq<Weight>, from: usize, to: usize) -> Option<Number> {
    if exists|i: int| weight_at(weights, from, to, i) {
        Some(weights[choose|i: int| weight_at(weights, from, to, i)].weight)
    } else {
        None
    }
}

/// The number of links of the first `count` agents.
pub open spec fn links_among(edges: Seq<Links>, count: int) -> int
    decreases count,
{
    if count <= 0 {
        0
    } else {
        links_among(edges, count - 1) + edges[count - 1].to@.len()
    }
}

/// Among the neighbours `near` of an agent, the number of those before the
/// place `upto` and after the place `i` that the neighbour at `i` is linked to.
pub open spec fn closed_after(edges: Seq<Links>, near: Seq<usize>, i: int, upto: int) -> int
    decreases upto - i,
{
    if upto <= i + 1 {
        0
    } else {
        closed_after(edges, near, i, upto - 1) + if neighbours(edges, near[i]).contains(
            near[upto - 1],
        ) {
            1int
        } else {
            0int
        }
    }
}

/// The number of pairs among the neighbours `near` of an agent, the first of
/// the pair among the first `rows`, in which the first is linked to the second.
pub open spec fn closed_pairs(edges: Seq<Links>, near: Seq<usize>, rows: int) -> int
    decreases rows,
{
    if rows <= 0 {
        0
    } else {
        closed_pairs(edges, near, rows - 1) + closed_after(
            edges,
            near,
            rows - 1,
            near.len() as int,
        )
    }
}

/// No more neighbours are counted than there are after the place.
pub proof fn lemma_closed_after_bound(edges: Seq<Links>, near: Seq<usize>, i: int, upto: int)
    requires
        0 <= i,
    ensures
        0 <= closed_after(edges, near, i, upto),
        upto > i ==> closed_after(edges, near, i, upto) <= upto - i - 1,
        upto <= i ==> closed_after(edges, near, i, upto) == 0,
    decreases upto - i,
{
    if upto > i + 1 {
        lemma_closed_after_bound(edges, near, i, upto - 1);
    }
}

/// Whether no agent has its links in two places.
pub open spec fn one_place_each(edges: Seq<Links>) -> bool {
    forall|i: int, j: int|
        0 <= i < j < edges.len() ==> (#[trigger] edges[i]).from != (#[trigger] edges[j]).from
}

/// Whether no link has two weights.
pub open spec fn one_weight_each(weights: Seq<Weight>) -> bool {
    forall|i: int, j: int|
        0 <= i < j < weights.len() ==> !((#[trigger] weights[i]).from == (
        #[trigger] weights[j]).from && weights[i].to == weights[j].to)
}

/// A network of agents.
#[derive(Debug, Clone)]
pub struct AgentNetwork {
    edges: Vec<Links>,
    edge_weights: Vec<Weight>,
}

impl AgentNetwork {
    /// The links, agent by agent.
    pub closed spec fn links(&self) -> Seq<Links> {
        self.edges@
    }

    /// The weights of the links.
    pub closed spec fn weights(&self) -> Seq<Weight> {
        self.edge_weights@
    }

    /// Whether each agent has its links in one place and each link one weight.
    pub open spec fn well_formed(&self) -> bool {
        one_place_each(self.links()) && one_weight_each(self.weights())
    }

    /// A network without links.
    pub fn new() -> (r: AgentNetwork)
        ensures
            r.links().len() == 0,
            r.weights().len() == 0,
            r.well_formed(),
    {
        AgentNetwork { edges: Vec::new(), edge_weights: Vec::new() }
    }

    /// The place of the links of an agent.
    fn place_of(&self, id: usize) -> (r: Option<usize>)
        ensures
            match r {
                Some(i) => links_at(self.links(), id, i as int),
                None => forall|i: int| !links_at(self.links(), id, i),
            },
    {
        let mut i: usize = 0;
        while i < self.edges.len()
            invariant
                i <= self.links().len(),
                forall|k: int| 0 <= k < i ==> !links_at(self.links(), id, k),
            decreases self.links().len() - i,
        {
            if self.edges[i].from == id {
                return Some(i);
            }
            i += 1;
        }
        None
    }

    /// The place of the weight of a link.
    fn weight_place(&self, from: usize, to: usize) -> (r: Option<usize>)
        ensures
            match r {
                Some(i) => weight_at(self.weights(), from, to, i as int),
                None => forall|i: int| !weight_at(self.weights(), from, to, i),
            },
    {
        let mut i: usize = 0;
        while i < self.edge_weights.len()
            invariant
                i <= self.weights().len(),
                forall|k: int| 0 <= k < i ==> !weight_at(self.weights(), from, to, k),
            decreases self.weights().len() - i,
        {
            if self.edge_weights[i].from == from && self.edge_weights[i].to == to {
                return Some(i);
            }
            i += 1;
        }
        None
    }

    /// Links `from` to `to` once more, and gives the link the weight; a
    /// weight that the link had before is replaced.
    pub fn add_edge(&mut self, from: usize, to: usize, weight: Number)
        requires
            old(self).well_formed(),
        ensures
            final(self).well_formed(),
            neighbours(final(self).links(), from) == neighbours(old(self).links(), from).push(to),
            forall|other: usize|
                other != from ==> neighbours(final(self).links(), other) == neighbours(
                    old(self).links(),
                    other,
                ),
            weight_of(final(self).weights(), from, to) == Some(weight),
            forall|a: usize, b: usize|
                !(a == from && b == to) ==> weight_of(final(self).weights(), a, b)
                    == weight_of(old(self).weights(), a, b),
    {
        let ghost before = self.links();
        let ghost weights_before = self.weights();
        match self.place_of(from) {
            Some(i) => {
                let mut targets = self.edges[i].to.clone();
                targets.push(to);
                self.edges.set(i, Links { from, to: targets });
                proof {
                    let after = self.links();
                    assert(links_at(before, from, i as int));
                    assert(links_at(after, from, i as int));
                    assert forall|other: usize| other != from implies neighbours(after, other)
                        == neighbours(before, other) by {
                        assert forall|k: int| links_at(after, other, k) == links_at(
                            before,
                            other,
                            k,
                        ) by {}
                        if exists|k: int| links_at(before, other, k) {
                            let kb = choose|k: int| links_at(before, other, k);
                            assert(links_at(after, other, kb));
                            let ka = choose|k: int| links_at(after, other, k);
                            assert(links_at(before, other, ka));
                            assert(ka == kb);
                        }
                    }
                    let chosen_before = choose|k: int| links_at(before, from, k);
                    let chosen_after = choose|k: int| links_at(after, from, k);
                    assert(chosen_before == i);
                    assert(chosen_after == i);
                }
            },
            None => {
                let mut targets: Vec<usize> = Vec::new();
                targets.push(to);
                self.edges.push(Links { from, to: targets });
                proof {
                    let after = self.links();
                    let last = before.len() as int;
                    assert(links_at(after, from, last));
                    let chosen = choose|k: int| links_at(after, from, k);
                    assert(chosen == last) by {
                        if chosen < last {
                            assert(links_at(before, from, chosen));
                        }
                    }
                    assert(neighbours(before, from) =~= Seq::<usize>::empty());
                    assert(after[last].to@ =~= Seq::<usize>::empty().push(to));
                    assert forall|other: usize| other != from implies neighbours(after, other)
                        == neighbours(before, other) by {
                        if exists|k: int| links_at(before, other, k) {
                            let kb = choose|k: int| links_at(before, other, k);
                            assert(links_at(after, other, kb));
                            let ka = choose|k: int| links_at(after, other, k);
                            assert(links_at(before, other, ka));
                            assert(ka == kb);
                        } else if exists|k: int| links_at(after, other, k) {
                            let ka = choose|k: int| links_at(after, other, k);
                            assert(links_at(before, other, ka));
                        }
                    }
                }
            },
        }
        proof {
            let after = self.links();
            assert forall|a: int, b: int| 0 <= a < b < after.len() implies (
            #[trigger] after[a]).from != (#[trigger] after[b]).from by {
                if b < before.len() {
                    assert(after[a].from == before[a].from && after[b].from == before[b].from);
                } else {
                    assert(after[a].from == before[a].from);
                    assert(!links_at(before, from, a));
                }
            }
        }
        assert(self.weights() == weights_before);
        let entry = Weight { from, to, weight };
        match self.weight_place(from, to) {
            Some(i) => {
                self.edge_weights.set(i, entry);
                proof {
                    let after = self.weights();
                    assert(weight_at(after, from, to, i as int));
                    let chosen = choose|k: int| weight_at(after, from, to, k);
                    assert(chosen == i);
                    assert forall|a: usize, b: usize| !(a == from && b == to) implies weight_of(
                        after,
                        a,
                        b,
                    ) == weight_of(weights_before, a, b) by {
                        assert forall|k: int| weight_at(after, a, b, k) == weight_at(
                            weights_before,
                            a,
                            b,
                            k,
                        ) by {}
                        if exists|k: int| weight_at(weights_before, a, b, k) {
                            let kb = choose|k: int| weight_at(weights_before, a, b, k);
                            assert(weight_at(after, a, b, kb));
                            let ka = choose|k: int| weight_at(after, a, b, k);
                            assert(weight_at(weights_before, a, b, ka));
                            assert(ka == kb);
                        }
                    }
                }
            },
            None => {
                self.edge_weights.push(entry);
                proof {
                    let after = self.weights();
                    let last = weights_before.len() as int;
                    assert(weight_at(after, from, to, last));
                    let chosen = choose|k: int| weight_at(after, from, to, k);
                    assert(chosen == last) by {
                        if chosen < last {
                            assert(weight_at(weights_before, from, to, chosen));
                        }
                    }
                    assert forall|a: usize, b: usize| !(a == from && b == to) implies weight_of(
                        after,
                        a,
                        b,
                    ) == weight_of(weights_before, a, b) by {
                        if exists|k: int| weight_at(weights_before, a, b, k) {
                            let kb = choose|k: int| weight_at(weights_before, a, b, k);
                            assert(weight_at(after, a, b, kb));
                            let ka = choose|k: int| weight_at(after, a, b, k);
                            assert(weight_at(weights_before, a, b, ka));
                            assert(ka == kb);
                        } else if exists|k: int| weight_at(after, a, b, k) {
                            let ka = choose|k: int| weight_at(after, a, b, k);
                            assert(weight_at(weights_before, a, b, ka));
                        }
                    }
                }
            },
        }
        proof {
            let after = self.weights();
            assert forall|a: int, b: int| 0 <= a < b < after.len() implies !((
            #[trigger] after[a]).from == (#[trigger] after[b]).from && after[a].to
                == after[b].to) by {
                if b < weights_before.len() {
                    assert(after[a].from == weights_before[a].from && after[a].to
                        == weights_before[a].to);
                    assert(after[b].from == weights_before[b].from && after[b].to
                        == weights_before[b].to);
                } else {
                    assert(after[a].from == weights_before[a].from && after[a].to
                        == weights_before[a].to);
                    assert(!weight_at(weights_before, from, to, a));
                }
            }
        }
    }

    /// The agents that an agent is linked to.
    pub fn get_neighbors(&self, agent_id: usize) -> (r: Vec<usize>)
        requires
            self.well_formed(),
        ensures
            r@ == neighbours(self.links(), agent_id),
    {
        match self.place_of(agent_id) {
            Some(i) => {
                proof {
                    let chosen = choose|k: int| links_at(self.links(), agent_id, k);
                    assert(chosen == i);
                }
                self.edges[i].to.clone()
            },
            None => Vec::new(),
        }
    }

    /// Whether `from` is linked to `to`.
    pub fn is_linked(&self, from: usize, to: usize) -> (r: bool)
        requires
            self.well_formed(),
        ensures
            r == neighbours(self.links(), from).contains(to),
    {
        match self.place_of(from) {
            Some(i) => {
                proof {
                    let chosen = choose|k: int| links_at(self.links(), from, k);
                    assert(chosen == i);
                }
                let targets = &self.edges[i].to;
                let mut k: usize = 0;
                while k < targets.len()
                    invariant
                        k <= targets@.len(),
                        targets@ == neighbours(self.links(), from),
                        forall|m: int| 0 <= m < k ==> targets@[m] != to,
                    decreases targets@.len() - k,
                {
                    if targets[k] == to {
                        assert(targets@[k as int] == to);
                        return true;
                    }
                    k += 1;
                }
                false
            },
            None => false,
        }
    }

    /// The weight of the link from `from` to `to`; zero where it has none.
    pub fn get_edge_weight(&self, from: usize, to: usize) -> (r: Number)
        requires
            self.well_formed(),
        ensures
            r == match weight_of(self.weights(), from, to) {
                Some(w) => w,
                None => Number { bits: 0 },
            },
    {
        match self.weight_place(from, to) {
            Some(i) => {
                proof {
                    let chosen = choose|k: int| weight_at(self.weights(), from, to, k);
                    assert(chosen == i);
                }
                self.edge_weights[i].weight
            },
            None => Number::zero(),
        }
    }

    /// The number of agents that have links.
    pub fn linked_agents(&self) -> (r: usize)
        ensures
            r == self.links().len(),
    {
        self.edges.len()
    }

    /// The number of links, each direction counted by itself.
    pub fn link_count(&self) -> (r: u128)
        ensures
            r == links_among(self.links(), self.links().len() as int),
    {
        let mut total: u128 = 0;
        let mut i: usize = 0;
        while i < self.edges.len()
            invariant
                i <= self.links().len(),
                total == links_among(self.links(), i as int),
                total <= i * usize::MAX,
            decreases self.links().len() - i,
        {
            let more = self.edges[i].to.len();
            assert(i * usize::MAX + usize::MAX <= u128::MAX) by (nonlinear_arith)
                requires
                    i <= usize::MAX,
                    usize::MAX <= 0xffff_ffff_ffff_ffff,
                    u128::MAX == 0xffff_ffff_ffff_ffff_ffff_ffff_ffff_ffff,
            ;
            assert((i + 1) * usize::MAX == i * usize::MAX + usize::MAX) by (nonlinear_arith);
            total = total + more as u128;
            i += 1;
        }
        total
    }

    /// The number of pairs of neighbours of an agent in which the first is
    /// linked to the second.
    pub fn closed_neighbour_pairs(&self, agent_id: usize) -> (r: u128)
        requires
            self.well_formed(),
        ensures
            r == closed_pairs(
                self.links(),
                neighbours(self.links(), agent_id),
                neighbours(self.links(), agent_id).len() as int,
            ),
    {
        let near = self.get_neighbors(agent_id);
        let k = near.len();
        let mut total: u128 = 0;
        let mut i: usize = 0;
        while i < k
            invariant
                self.well_formed(),
                k == near@.len(),
                i <= k,
                total == closed_pairs(self.links(), near@, i as int),
                total <= i * k,
            decreases k - i,
        {
            let ghost row_start = total;
            let mut j: usize = i + 1;
            proof {
                lemma_closed_after_bound(self.links(), near@, i as int, j as int);
                assert(i * k + k <= u128::MAX) by (nonlinear_arith)
                    requires
                        i < k,
                        k <= 0xffff_ffff_ffff_ffff,
                        u128::MAX == 0xffff_ffff_ffff_ffff_ffff_ffff_ffff_ffff,
                ;
                assert((i + 1) * k == i * k + k) by (nonlinear_arith);
            }
            while j < k
                invariant
                    self.well_formed(),
                    k == near@.len(),
                    i < k,
                    i + 1 <= j <= k,
                    row_start == closed_pairs(self.links(), near@, i as int),
                    row_start <= i * k,
                    i * k + k <= u128::MAX,
                    total == row_start + closed_after(self.links(), near@, i as int, j as int),
                    closed_after(self.links(), near@, i as int, j as int) <= j - i - 1,
                decreases k - j,
            {
                if self.is_linked(near[i], near[j]) {
                    total = total + 1;
                }
                j += 1;
            }
            i += 1;
        }
        total
    }
}

} // verus!

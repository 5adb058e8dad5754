//! The drawn graph of a model: one node for each element, and an edge for each
//! flow into or out of a stock. The graph itself is kept by `petgraph`.

use vstd::prelude::*;
use vstd::string::*;
use petgraph::graph::DiGraph;
use petgraph::graph::NodeIndex;
use crate::model::named::{holds, labels, Named};
use crate::model::stock::Stock;
use crate::model::{Flow, Model};

verus! {

#[derive(Debug, Clone, Copy, PartialEq, Eq, Structural)]
pub enum GraphNodeType {
    Stock,
    Flow,
    Auxiliary,
    Parameter,
}

#[derive(Debug, Clone)]
pub struct GraphNode {
    pub name: String,
    pub node_type: GraphNodeType,
}

#[derive(Debug, Clone, Copy, PartialEq, Eq, Structural)]
pub enum GraphEdgeType {
    Inflow,
    Outflow,
    Dependency,
}

#[verifier::external_type_specification]
#[verifier::external_body]
#[verifier::reject_recursive_types(N)]
#[verifier::reject_recursive_types(E)]
#[verifier::reject_recursive_types(Ty)]
#[verifier::reject_recursive_types(Ix)]
pub struct ExGraph<N, E, Ty, Ix>(petgraph::graph::Graph<N, E, Ty, Ix>);

#[verifier::external_type_specification]
#[verifier::external_body]
pub struct ExDirected(petgraph::Directed);

/// The nodes of a graph by name and kind, in the order of their indices.
pub uninterp spec fn node_list(g: DiGraph<GraphNode, GraphEdgeType>) -> Seq<
    (Seq<char>, GraphNodeType),
>;

/// The edges of a graph, in the order of their indices: the index of the node an
/// edge leaves, the index of the node it enters, and its kind.
pub uninterp spec fn edge_list(g: DiGraph<GraphNode, GraphEdgeType>) -> Seq<
    (int, int, GraphEdgeType),
>;

/// Calls `Graph::new`, which makes a directed graph without nodes or edges.
#[verifier::external_body]
fn empty_graph() -> (g: DiGraph<GraphNode, GraphEdgeType>)
    ensures
        node_list(g).len() == 0,
        edge_list(g).len() == 0,
{
    DiGraph::new()
}

/// Calls `Graph::add_node`, which appends the node and returns its index, the
/// number of nodes before the call. It panics when the index would be the
/// largest value of its type, which stands for no node.
#[verifier::external_body]
fn push_node(g: &mut DiGraph<GraphNode, GraphEdgeType>, node: GraphNode) -> (i: usize)
    requires
        node_list(*old(g)).len() < u32::MAX,
    ensures
        node_list(*final(g)) == node_list(*old(g)).push((node.name@, node.node_type)),
        edge_list(*final(g)) == edge_list(*old(g)),
        i == node_list(*old(g)).len(),
{
    g.add_node(node).index()
}

/// Calls `Graph::add_edge`, which appends an edge from node `a` to node `b`. It
/// panics when one of the two is no node of the graph, or when the index of
/// the edge would be the largest value of its type.
#[verifier::external_body]
fn push_edge(g: &mut DiGraph<GraphNode, GraphEdgeType>, a: usize, b: usize, kind: GraphEdgeType)
    requires
        a < node_list(*old(g)).len(),
        b < node_list(*old(g)).len(),
        edge_list(*old(g)).len() < u32::MAX,
    ensures
        edge_list(*final(g)) == edge_list(*old(g)).push((a as int, b as int, kind)),
        node_list(*final(g)) == node_list(*old(g)),
{
    g.add_edge(NodeIndex::new(a), NodeIndex::new(b), kind);
}

/// Calls `Graph::node_count`, the number of nodes.
#[verifier::external_body]
fn count_nodes(g: &DiGraph<GraphNode, GraphEdgeType>) -> (n: usize)
    ensures
        n == node_list(*g).len(),
{
    g.node_count()
}

/// Calls `Graph::edge_count`, the number of edges.
#[verifier::external_body]
fn count_edges(g: &DiGraph<GraphNode, GraphEdgeType>) -> (n: usize)
    ensures
        n == edge_list(*g).len(),
{
    g.edge_count()
}

/// The last position at which `name` stands.
pub open spec fn last_index(names: Seq<Seq<char>>, name: Seq<char>) -> Option<int>
    decreases names.len(),
{
    if names.len() == 0 {
        None
    } else if names.last() == name {
        Some(names.len() - 1)
    } else {
        last_index(names.drop_last(), name)
    }
}

pub proof fn lemma_last_index(names: Seq<Seq<char>>, name: Seq<char>)
    ensures
        match last_index(names, name) {
            Some(i) => 0 <= i < names.len() && names[i] == name && forall|k: int|
                i < k < names.len() ==> names[k] != name,
            None => forall|k: int| 0 <= k < names.len() ==> names[k] != name,
        },
    decreases names.len(),
{
    if names.len() > 0 && names.last() != name {
        let rest = names.drop_last();
        lemma_last_index(rest, name);
        assert forall|k: int| 0 <= k < rest.len() implies rest[k] == names[k] by {}
        match last_index(rest, name) {
            Some(i) => {
                assert(names[i] == name);
                assert forall|k: int| i < k < names.len() implies names[k] != name by {
                    if k < rest.len() {
                        assert(rest[k] == names[k]);
                    }
                }
            },
            None => {
                assert forall|k: int| 0 <= k < names.len() implies names[k] != name by {
                    if k < rest.len() {
                        assert(rest[k] == names[k]);
                    }
                }
            },
        }
    }
}

/// The names of the nodes.
pub open spec fn node_names(nodes: Seq<(Seq<char>, GraphNodeType)>) -> Seq<Seq<char>> {
    Seq::new(nodes.len(), |i: int| nodes[i].0)
}

/// One node of the given kind for each name.
pub open spec fn typed(names: Seq<Seq<char>>, kind: GraphNodeType) -> Seq<
    (Seq<char>, GraphNodeType),
> {
    Seq::new(names.len(), |i: int| (names[i], kind))
}

/// The nodes of the graph of a model: its stocks, then its flows, its
/// auxiliaries and its parameters.
pub open spec fn model_nodes(model: Model) -> Seq<(Seq<char>, GraphNodeType)> {
    typed(labels(model.stock_list()), GraphNodeType::Stock) + typed(
        labels(model.flow_list()),
        GraphNodeType::Flow,
    ) + typed(labels(model.auxiliary_list()), GraphNodeType::Auxiliary) + typed(
        labels(model.parameter_list()),
        GraphNodeType::Parameter,
    )
}

/// The edges with one more from `from` to `to`, where both are names of nodes:
/// each name stands for the last node called so.
pub open spec fn with_edge(
    names: Seq<Seq<char>>,
    edges: Seq<(int, int, GraphEdgeType)>,
    from: Seq<char>,
    to: Seq<char>,
    kind: GraphEdgeType,
) -> Seq<(int, int, GraphEdgeType)> {
    match (last_index(names, from), last_index(names, to)) {
        (Some(a), Some(b)) => edges.push((a, b, kind)),
        _ => edges,
    }
}

/// The edges with those of the first `count` of the given flows of a stock: for
/// each that is a flow of the model, an edge from the flow to the stock for an
/// inflow, and from the stock to the flow for an outflow.
pub open spec fn with_flow_edges(
    names: Seq<Seq<char>>,
    flows: Seq<Flow>,
    edges: Seq<(int, int, GraphEdgeType)>,
    stock: Seq<char>,
    list: Seq<String>,
    inflow: bool,
    count: int,
) -> Seq<(int, int, GraphEdgeType)>
    decreases count,
{
    if count <= 0 {
        edges
    } else {
        let before = with_flow_edges(names, flows, edges, stock, list, inflow, count - 1);
        let flow = list[count - 1]@;
        if !holds(flows, flow) {
            before
        } else if inflow {
            with_edge(names, before, flow, stock, GraphEdgeType::Inflow)
        } else {
            with_edge(names, before, stock, flow, GraphEdgeType::Outflow)
        }
    }
}

/// The edges of the first `count` stocks: for each stock those of its inflows,
/// then those of its outflows.
pub open spec fn stock_edges(names: Seq<Seq<char>>, flows: Seq<Flow>, stocks: Seq<Stock>, count: int)
    -> Seq<(int, int, GraphEdgeType)>
    decreases count,
{
    if count <= 0 {
        Seq::empty()
    } else {
        let stock = stocks[count - 1];
        let before = stock_edges(names, flows, stocks, count - 1);
        let with_in = with_flow_edges(
            names,
            flows,
            before,
            stock.name@,
            stock.inflows@,
            true,
            stock.inflows@.len() as int,
        );
        with_flow_edges(
            names,
            flows,
            with_in,
            stock.name@,
            stock.outflows@,
            false,
            stock.outflows@.len() as int,
        )
    }
}

/// The number of flows that the first `count` stocks name.
pub open spec fn named_flows(stocks: Seq<Stock>, count: int) -> int
    decreases count,
{
    if count <= 0 {
        0
    } else {
        named_flows(stocks, count - 1) + stocks[count - 1].inflows@.len() + stocks[count
            - 1].outflows@.len()
    }
}

/// A graph whose nodes are found by name.
pub struct DependencyGraph {
    graph: DiGraph<GraphNode, GraphEdgeType>,
    names: Vec<String>,
}

impl DependencyGraph {
    /// The nodes by name and kind, in the order in which they were added.
    pub closed spec fn nodes(&self) -> Seq<(Seq<char>, GraphNodeType)> {
        node_list(self.graph)
    }

    /// The edges, in the order in which they were added.
    pub closed spec fn edges(&self) -> Seq<(int, int, GraphEdgeType)> {
        edge_list(self.graph)
    }

    /// Whether the graph keeps the name of each of its nodes.
    pub closed spec fn well_formed(&self) -> bool {
        node_names(node_list(self.graph)) == Seq::new(
            self.names@.len(),
            |i: int| self.names@[i]@,
        )
    }

    /// The names of the nodes.
    pub open spec fn names(&self) -> Seq<Seq<char>> {
        node_names(self.nodes())
    }

    /// A graph without nodes.
    pub fn new() -> (r: DependencyGraph)
        ensures
            r.well_formed(),
            r.nodes().len() == 0,
            r.edges().len() == 0,
    {
        let r = DependencyGraph { graph: empty_graph(), names: Vec::new() };
        assert(node_names(node_list(r.graph)) =~= Seq::new(r.names@.len(), |i: int| r.names@[i]@));
        r
    }

    /// The number of nodes.
    pub fn node_count(&self) -> (n: usize)
        ensures
            n == self.nodes().len(),
    {
        count_nodes(&self.graph)
    }

    /// The number of edges.
    pub fn edge_count(&self) -> (n: usize)
        ensures
            n == self.edges().len(),
    {
        count_edges(&self.graph)
    }

    /// Adds a node and gives its index. A node added under a name that is in
    /// use takes the name over.
    pub fn add_node(&mut self, name: String, node_type: GraphNodeType) -> (i: usize)
        requires
            old(self).well_formed(),
            old(self).nodes().len() < u32::MAX,
        ensures
            final(self).well_formed(),
            final(self).nodes() == old(self).nodes().push((name@, node_type)),
            final(self).edges() == old(self).edges(),
            i == old(self).nodes().len(),
    {
        let node = GraphNode { name: name.clone(), node_type };
        let i = push_node(&mut self.graph, node);
        self.names.push(name);
        proof {
            let before = old(self).names@;
            assert(node_names(node_list(old(self).graph)).len() == before.len());
            assert forall|k: int| 0 <= k < self.names@.len() implies node_names(
                node_list(self.graph),
            )[k] == self.names@[k]@ by {
                if k < before.len() {
                    assert(node_names(node_list(old(self).graph))[k] == before[k]@);
                }
            }
            assert(node_names(node_list(self.graph)) =~= Seq::new(
                self.names@.len(),
                |i: int| self.names@[i]@,
            ));
        }
        i
    }

    /// The index of the last node added under `name`.
    pub fn get_node_index(&self, name: &str) -> (r: Option<usize>)
        requires
            self.well_formed(),
        ensures
            match r {
                Some(i) => last_index(self.names(), name@) == Some(i as int) && i
                    < self.nodes().len(),
                None => last_index(self.names(), name@) is None,
            },
    {
        let wanted = String::from_str(name);
        let ghost all = self.names();
        let mut k: usize = self.names.len();
        assert(all.take(k as int) =~= all);
        while k > 0
            invariant
                k <= self.names@.len(),
                self.well_formed(),
                all == self.names(),
                all.len() == self.names@.len(),
                wanted@ == name@,
                last_index(all, name@) == last_index(all.take(k as int), name@),
            decreases k,
        {
            let i: usize = k - 1;
            proof {
                assert(all.take(k as int).drop_last() =~= all.take(i as int));
                assert(all.take(k as int).last() == all[i as int]);
                assert(all[i as int] == self.names@[i as int]@);
            }
            if self.names[i] == wanted {
                return Some(i);
            }
            k = i;
        }
        None
    }

    /// Adds an edge between the nodes called `from` and `to`; does nothing when
    /// one of the names is no node.
    pub fn add_edge(&mut self, from: &str, to: &str, edge_type: GraphEdgeType)
        requires
            old(self).well_formed(),
            old(self).edges().len() < u32::MAX,
        ensures
            final(self).well_formed(),
            final(self).nodes() == old(self).nodes(),
            final(self).edges() == with_edge(
                old(self).names(),
                old(self).edges(),
                from@,
                to@,
                edge_type,
            ),
    {
        let a = self.get_node_index(from);
        let b = self.get_node_index(to);
        match (a, b) {
            (Some(a), Some(b)) => {
                push_edge(&mut self.graph, a, b, edge_type);
            },
            _ => {},
        }
    }
}

/// Adds one node of the given kind for each name.
fn add_nodes<T: Named>(graph: &mut DependencyGraph, items: &Vec<T>, kind: GraphNodeType)
    requires
        old(graph).well_formed(),
        old(graph).nodes().len() + items@.len() < u32::MAX,
    ensures
        final(graph).well_formed(),
        final(graph).nodes() == old(graph).nodes() + typed(labels(items@), kind),
        final(graph).edges() == old(graph).edges(),
{
    let mut i: usize = 0;
    assert(old(graph).nodes() + typed(labels(items@), kind).take(0) =~= old(graph).nodes());
    while i < items.len()
        invariant
            i <= items@.len(),
            graph.well_formed(),
            old(graph).nodes().len() + items@.len() < u32::MAX,
            graph.nodes() == old(graph).nodes() + typed(labels(items@), kind).take(i as int),
            graph.edges() == old(graph).edges(),
        decreases items@.len() - i,
    {
        let name = items[i].name_ref().clone();
        graph.add_node(name, kind);
        assert(graph.nodes() =~= old(graph).nodes() + typed(labels(items@), kind).take(i + 1));
        i += 1;
    }
    assert(typed(labels(items@), kind).take(items@.len() as int) =~= typed(labels(items@), kind));
}

/// Adds the edges of the given flows of a stock.
fn add_flow_edges(
    graph: &mut DependencyGraph,
    flows: &Vec<Flow>,
    stock: &String,
    list: &Vec<String>,
    inflow: bool,
)
    requires
        old(graph).well_formed(),
        old(graph).edges().len() + list@.len() < u32::MAX,
    ensures
        final(graph).well_formed(),
        final(graph).nodes() == old(graph).nodes(),
        final(graph).edges() == with_flow_edges(
            old(graph).names(),
            flows@,
            old(graph).edges(),
            stock@,
            list@,
            inflow,
            list@.len() as int,
        ),
        final(graph).edges().len() <= old(graph).edges().len() + list@.len(),
{
    let mut k: usize = 0;
    while k < list.len()
        invariant
            k <= list@.len(),
            graph.well_formed(),
            graph.nodes() == old(graph).nodes(),
            old(graph).edges().len() + list@.len() < u32::MAX,
            graph.edges().len() <= old(graph).edges().len() + k,
            graph.edges() == with_flow_edges(
                old(graph).names(),
                flows@,
                old(graph).edges(),
                stock@,
                list@,
                inflow,
                k as int,
            ),
        decreases list@.len() - k,
    {
        if crate::model::named::find_named(flows, list[k].as_str()).is_some() {
            if inflow {
                graph.add_edge(list[k].as_str(), stock.as_str(), GraphEdgeType::Inflow);
            } else {
                graph.add_edge(stock.as_str(), list[k].as_str(), GraphEdgeType::Outflow);
            }
        }
        k += 1;
    }
}

/// The graph of a model: a node for each stock, flow, auxiliary and parameter,
/// and for each flow that a stock names and the model has, an edge from the
/// flow to the stock it fills, or from the stock to the flow that drains it.
pub fn build_graph_from_model(model: &Model) -> (r: DependencyGraph)
    requires
        model.stock_list().len() + model.flow_list().len() + model.auxiliary_list().len()
            + model.parameter_list().len() < u32::MAX,
        named_flows(model.stock_list(), model.stock_list().len() as int) < u32::MAX,
    ensures
        r.well_formed(),
        r.nodes() == model_nodes(*model),
        r.edges() == stock_edges(
            node_names(model_nodes(*model)),
            model.flow_list(),
            model.stock_list(),
            model.stock_list().len() as int,
        ),
{
    let mut graph = DependencyGraph::new();
    add_nodes(&mut graph, model.stocks(), GraphNodeType::Stock);
    add_nodes(&mut graph, model.flows(), GraphNodeType::Flow);
    add_nodes(&mut graph, model.auxiliaries(), GraphNodeType::Auxiliary);
    add_nodes(&mut graph, model.parameters(), GraphNodeType::Parameter);
    assert(graph.nodes() =~= model_nodes(*model));
    let stocks = model.stocks();
    let mut i: usize = 0;
    while i < stocks.len()
        invariant
            i <= stocks@.len(),
            stocks@ == model.stock_list(),
            graph.well_formed(),
            graph.nodes() == model_nodes(*model),
            named_flows(model.stock_list(), model.stock_list().len() as int) < u32::MAX,
            graph.edges().len() <= named_flows(stocks@, i as int),
            graph.edges() == stock_edges(
                node_names(model_nodes(*model)),
                model.flow_list(),
                stocks@,
                i as int,
            ),
        decreases stocks@.len() - i,
    {
        proof {
            lemma_named_flows_grow(stocks@, i + 1, stocks@.len() as int);
        }
        let stock = &stocks[i];
        add_flow_edges(&mut graph, model.flows(), &stock.name, &stock.inflows, true);
        add_flow_edges(&mut graph, model.flows(), &stock.name, &stock.outflows, false);
        i += 1;
    }
    graph
}

/// Whether the graph of the model can be built: it has fewer nodes and fewer
/// edges than the largest index.
pub open spec fn fits_graph(model: Model) -> bool {
    &&& model.stock_list().len() + model.flow_list().len() + model.auxiliary_list().len()
        + model.parameter_list().len() < u32::MAX
    &&& named_flows(model.stock_list(), model.stock_list().len() as int) < u32::MAX
}

/// The graph of a model, or nothing where the model is too large for one.
pub fn try_build_graph_from_model(model: &Model) -> (r: Option<DependencyGraph>)
    ensures
        match r {
            Some(graph) => fits_graph(*model) && graph.well_formed() && graph.nodes()
                == model_nodes(*model) && graph.edges() == stock_edges(
                node_names(model_nodes(*model)),
                model.flow_list(),
                model.stock_list(),
                model.stock_list().len() as int,
            ),
            None => !fits_graph(*model),
        },
{
    let limit: usize = 0xffff_ffff;
    let a = model.stocks().len();
    let b = model.flows().len();
    let c = model.auxiliaries().len();
    let d = model.parameters().len();
    if a >= limit || b >= limit - a || c >= limit - a - b || d >= limit - a - b - c {
        return None;
    }
    let stocks = model.stocks();
    let mut total: usize = 0;
    let mut i: usize = 0;
    while i < stocks.len()
        invariant
            i <= stocks@.len(),
            limit == u32::MAX,
            stocks@ == model.stock_list(),
            total == named_flows(stocks@, i as int),
            total < limit,
        decreases stocks@.len() - i,
    {
        let ins = stocks[i].inflows.len();
        let outs = stocks[i].outflows.len();
        if ins >= limit - total || outs >= limit - total - ins {
            proof {
                lemma_named_flows_grow(stocks@, i + 1, stocks@.len() as int);
            }
            return None;
        }
        total = total + ins + outs;
        i += 1;
    }
    Some(build_graph_from_model(model))
}

/// The count of named flows does not fall as more stocks are counted.
pub proof fn lemma_named_flows_grow(stocks: Seq<Stock>, a: int, b: int)
    requires
        0 <= a <= b,
    ensures
        0 <= named_flows(stocks, a) <= named_flows(stocks, b),
    decreases b,
{
    if a < b {
        lemma_named_flows_grow(stocks, a, b - 1);
    } else if a > 0 {
        lemma_named_flows_grow(stocks, a - 1, a - 1);
    }
}

} // verus!

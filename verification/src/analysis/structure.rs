//! The causal structure of a model: nodes, links with polarity, feedback loops.

use vstd::prelude::*;
use vstd::string::*;
use crate::model::auxiliary::Auxiliary;
use crate::model::expression::{Expression, Tree};
use crate::model::{Flow, Model, Parameter, Stock};
use crate::text::{decimal_of, decimal_text};

verus! {

/// The kind of a model element.
#[derive(Debug, Clone, Copy, PartialEq, Eq, Hash, Structural)]
pub enum ElementType {
    Stock,
    Flow,
    Auxiliary,
    Parameter,
}

/// A node of the dependency graph.
#[derive(Debug, Clone, PartialEq, Eq, Hash)]
pub struct GraphNode {
    pub name: String,
    pub element_type: ElementType,
}

impl GraphNode {
    pub fn new(name: String, element_type: ElementType) -> (r: GraphNode)
        ensures
            r.name == name,
            r.element_type == element_type,
    {
        GraphNode { name, element_type }
    }
}

/// The direction in which a cause moves its effect.
#[derive(Debug, Clone, Copy, PartialEq, Eq, Structural)]
pub enum Polarity {
    /// An increase causes an increase.
    Positive,
    /// An increase causes a decrease.
    Negative,
    /// The structure alone does not tell.
    Unknown,
}

/// A causal link of the dependency graph.
#[derive(Debug, Clone)]
pub struct GraphEdge {
    pub from: GraphNode,
    pub to: GraphNode,
    pub polarity: Polarity,
}

/// The polarity of two links in a chain: equal signs give positive, different
/// signs negative, and an unknown link leaves the chain unknown.
pub open spec fn combined(a: Polarity, b: Polarity) -> Polarity {
    if a == Polarity::Unknown || b == Polarity::Unknown {
        Polarity::Unknown
    } else if a == b {
        Polarity::Positive
    } else {
        Polarity::Negative
    }
}

impl Polarity {
    /// The polarity of a chain of this link and another.
    pub fn combine(&self, other: &Polarity) -> (r: Polarity)
        ensures
            r == combined(*self, *other),
    {
        match (self, other) {
            (Polarity::Positive, Polarity::Positive) => Polarity::Positive,
            (Polarity::Negative, Polarity::Negative) => Polarity::Positive,
            (Polarity::Positive, Polarity::Negative) => Polarity::Negative,
            (Polarity::Negative, Polarity::Positive) => Polarity::Negative,
            _ => Polarity::Unknown,
        }
    }
}

/// Combining polarities does not depend on the order of the two links.
pub proof fn lemma_combine_commutes(a: Polarity, b: Polarity)
    ensures
        combined(a, b) == combined(b, a),
{
}

/// Combining polarities along a chain does not depend on how the chain is grouped.
pub proof fn lemma_combine_associates(a: Polarity, b: Polarity, c: Polarity)
    ensures
        combined(combined(a, b), c) == combined(a, combined(b, c)),
{
}

/// A positive link leaves the polarity of a chain as it is.
pub proof fn lemma_combine_positive(a: Polarity)
    ensures
        combined(Polarity::Positive, a) == a,
        combined(a, Polarity::Positive) == a,
{
}

/// A closed chain of causes.
#[derive(Debug, Clone)]
pub struct FeedbackLoop {
    pub nodes: Vec<GraphNode>,
    pub polarity: Polarity,
    pub length: usize,
}

impl FeedbackLoop {
    /// Whether a change comes back amplified.
    pub fn is_reinforcing(&self) -> (r: bool)
        ensures
            r == (self.polarity == Polarity::Positive),
    {
        match self.polarity {
            Polarity::Positive => true,
            _ => false,
        }
    }

    /// Whether a change comes back opposed.
    pub fn is_balancing(&self) -> (r: bool)
        ensures
            r == (self.polarity == Polarity::Negative),
    {
        match self.polarity {
            Polarity::Negative => true,
            _ => false,
        }
    }

    /// Whether the loop passes through a stock.
    pub fn contains_stock(&self) -> (r: bool)
        ensures
            r == exists|i: int|
                0 <= i < self.nodes@.len() && (#[trigger] self.nodes@[i]).element_type
                    == ElementType::Stock,
    {
        let mut i: usize = 0;
        while i < self.nodes.len()
            invariant
                i <= self.nodes@.len(),
                forall|k: int|
                    0 <= k < i ==> (#[trigger] self.nodes@[k]).element_type != ElementType::Stock,
            decreases self.nodes@.len() - i,
        {
            match self.nodes[i].element_type {
                ElementType::Stock => {
                    return true;
                },
                _ => {},
            }
            i += 1;
        }
        false
    }
}

/// What tells one node from another: its name and its kind.
pub type NodeKey = (Seq<char>, ElementType);

/// A link as mathematical value: where it starts, where it ends, its polarity.
pub type EdgeKey = (NodeKey, NodeKey, Polarity);

pub open spec fn node_key(n: GraphNode) -> NodeKey {
    (n.name@, n.element_type)
}

pub open spec fn edge_key(e: GraphEdge) -> EdgeKey {
    (node_key(e.from), node_key(e.to), e.polarity)
}

/// The nodes as mathematical values, in order.
pub open spec fn node_keys(nodes: Seq<GraphNode>) -> Seq<NodeKey> {
    Seq::new(nodes.len(), |i: int| node_key(nodes[i]))
}

/// The links as mathematical values, in order.
pub open spec fn edge_keys(edges: Seq<GraphEdge>) -> Seq<EdgeKey> {
    Seq::new(edges.len(), |i: int| edge_key(edges[i]))
}

/// Whether two nodes are the same node.
pub fn same_node(a: &GraphNode, b: &GraphNode) -> (r: bool)
    ensures
        r == (node_key(*a) == node_key(*b)),
{
    a.name == b.name && a.element_type == b.element_type
}

/// A copy of a node.
pub fn copy_node(n: &GraphNode) -> (r: GraphNode)
    ensures
        node_key(r) == node_key(*n),
{
    GraphNode { name: n.name.clone(), element_type: n.element_type }
}

/// A copy of a list of nodes.
pub fn copy_nodes(nodes: &Vec<GraphNode>) -> (r: Vec<GraphNode>)
    ensures
        node_keys(r@) == node_keys(nodes@),
{
    let mut r: Vec<GraphNode> = Vec::new();
    let mut i: usize = 0;
    while i < nodes.len()
        invariant
            i <= nodes@.len(),
            r@.len() == i,
            forall|k: int| 0 <= k < i ==> node_key(#[trigger] r@[k]) == node_key(nodes@[k]),
        decreases nodes@.len() - i,
    {
        r.push(copy_node(&nodes[i]));
        i += 1;
    }
    assert(node_keys(r@) =~= node_keys(nodes@));
    r
}

/// Whether `node` is among `nodes`.
pub fn contains_node(nodes: &Vec<GraphNode>, node: &GraphNode) -> (r: bool)
    ensures
        r == node_keys(nodes@).contains(node_key(*node)),
{
    let mut i: usize = 0;
    while i < nodes.len()
        invariant
            i <= nodes@.len(),
            forall|k: int| 0 <= k < i ==> node_key(#[trigger] nodes@[k]) != node_key(*node),
        decreases nodes@.len() - i,
    {
        if same_node(&nodes[i], node) {
            assert(node_keys(nodes@)[i as int] == node_key(*node));
            return true;
        }
        i += 1;
    }
    assert forall|k: int| 0 <= k < node_keys(nodes@).len() implies node_keys(nodes@)[k]
        != node_key(*node) by {
        assert(node_keys(nodes@)[k] == node_key(nodes@[k]));
    }
    false
}

/// The names with one more, unless it is among them already.
pub open spec fn with_name(names: Seq<Seq<char>>, name: Seq<char>) -> Seq<Seq<char>> {
    if names.contains(name) {
        names
    } else {
        names.push(name)
    }
}

/// The names with those of the first `count` expressions added.
pub open spec fn with_all(names: Seq<Seq<char>>, args: Seq<Tree>, count: int) -> Seq<Seq<char>>
    decreases args, count,
{
    if count <= 0 || count > args.len() {
        names
    } else {
        with_mentioned(with_all(names, args, count - 1), args[count - 1])
    }
}

/// The names with those added that the expression mentions as variables, each
/// once, in the order in which it first occurs.
pub open spec fn with_mentioned(names: Seq<Seq<char>>, t: Tree) -> Seq<Seq<char>>
    decreases t, 0int,
{
    match t {
        Tree::Constant(_) => names,
        Tree::Variable(name) => with_name(names, name),
        Tree::Subscripted { name, subscripts } => with_name(names, name),
        Tree::Binary { op, left, right } => with_mentioned(with_mentioned(names, *left), *right),
        Tree::Unary { op, expr } => with_mentioned(names, *expr),
        Tree::Call { name, args } => with_all(names, args, args.len() as int),
        Tree::Conditional { condition, true_expr, false_expr } => with_mentioned(
            with_mentioned(with_mentioned(names, *condition), *true_expr),
            *false_expr,
        ),
    }
}

/// The texts of the strings.
pub open spec fn texts(v: Seq<String>) -> Seq<Seq<char>> {
    Seq::new(v.len(), |i: int| v[i]@)
}

fn add_name(names: &mut Vec<String>, name: &String)
    ensures
        texts(final(names)@) == with_name(texts(old(names)@), name@),
{
    let mut i: usize = 0;
    while i < names.len()
        invariant
            i <= names@.len(),
            *names == *old(names),
            forall|k: int| 0 <= k < i ==> (#[trigger] names@[k])@ != name@,
        decreases names@.len() - i,
    {
        if names[i] == *name {
            assert(texts(names@)[i as int] == name@);
            return ;
        }
        i += 1;
    }
    assert(!texts(names@).contains(name@)) by {
        assert forall|k: int| 0 <= k < texts(names@).len() implies texts(names@)[k] != name@ by {
            assert(texts(names@)[k] == names@[k]@);
        }
    }
    names.push(name.clone());
    assert(texts(names@) =~= texts(old(names)@).push(name@));
}

fn collect_names(expr: &Expression, names: &mut Vec<String>)
    ensures
        texts(final(names)@) == with_mentioned(texts(old(names)@), expr@),
    decreases expr,
{
    match expr {
        Expression::Constant(_) => {},
        Expression::Variable(name) => add_name(names, name),
        Expression::SubscriptedVariable { name, subscripts } => add_name(names, name),
        Expression::BinaryOp { op, left, right } => {
            collect_names(left, names);
            collect_names(right, names);
        },
        Expression::UnaryOp { op, expr } => collect_names(expr, names),
        Expression::FunctionCall { name, args } => {
            let mut i: usize = 0;
            while i < args.len()
                invariant
                    i <= args@.len(),
                    texts(names@) == with_all(texts(old(names)@), expr@->args, i as int),
                    expr@->args.len() == args@.len(),
                    forall|k: int| 0 <= k < args@.len() ==> expr@->args[k] == args@[k]@,
                    forall|k: int|
                        0 <= k < args@.len() ==> decreases_to!(expr => #[trigger] args@[k]),
                decreases args@.len() - i,
            {
                collect_names(&args[i], names);
                i += 1;
            }
        },
        Expression::Conditional { condition, true_expr, false_expr } => {
            collect_names(condition, names);
            collect_names(true_expr, names);
            collect_names(false_expr, names);
        },
    }
}

/// The graph of what depends on what in a model.
#[derive(Debug, Clone)]
pub struct DependencyGraph {
    /// The nodes, each once.
    pub nodes: Vec<GraphNode>,
    /// The links, in the order in which they were added.
    pub edges: Vec<GraphEdge>,
}

/// The first node of the given name.
pub open spec fn named_node(nodes: Seq<NodeKey>, name: Seq<char>) -> Option<NodeKey>
    decreases nodes.len(),
{
    if nodes.len() == 0 {
        None
    } else if nodes[0].0 == name {
        Some(nodes[0])
    } else {
        named_node(nodes.drop_first(), name)
    }
}

/// The nodes that the links from `from` lead to, in the order of the links.
pub open spec fn targets(edges: Seq<EdgeKey>, from: NodeKey) -> Seq<NodeKey>
    decreases edges.len(),
{
    if edges.len() == 0 {
        Seq::empty()
    } else if edges.last().0 == from {
        targets(edges.drop_last(), from).push(edges.last().1)
    } else {
        targets(edges.drop_last(), from)
    }
}

/// The nodes with one more, unless it is among them already.
pub open spec fn with_node(nodes: Seq<NodeKey>, node: NodeKey) -> Seq<NodeKey> {
    if nodes.contains(node) {
        nodes
    } else {
        nodes.push(node)
    }
}

impl DependencyGraph {
    /// The nodes as mathematical values.
    pub open spec fn node_view(&self) -> Seq<NodeKey> {
        node_keys(self.nodes@)
    }

    /// The links as mathematical values.
    pub open spec fn edge_view(&self) -> Seq<EdgeKey> {
        edge_keys(self.edges@)
    }

    /// A graph without nodes.
    pub fn new() -> (r: DependencyGraph)
        ensures
            r.nodes@.len() == 0,
            r.edges@.len() == 0,
    {
        DependencyGraph { nodes: Vec::new(), edges: Vec::new() }
    }

    /// Adds a node unless it is a node of the graph already.
    pub fn add_node(&mut self, node: GraphNode)
        ensures
            final(self).node_view() == with_node(old(self).node_view(), node_key(node)),
            final(self).edges == old(self).edges,
    {
        if !contains_node(&self.nodes, &node) {
            self.nodes.push(node);
            assert(self.node_view() =~= old(self).node_view().push(node_key(node)));
        }
    }

    /// Adds a link.
    pub fn add_edge(&mut self, from: GraphNode, to: GraphNode, polarity: Polarity)
        ensures
            final(self).edge_view() == old(self).edge_view().push(
                (node_key(from), node_key(to), polarity),
            ),
            final(self).nodes == old(self).nodes,
    {
        self.edges.push(GraphEdge { from, to, polarity });
        assert(self.edge_view() =~= old(self).edge_view().push(
            (node_key(from), node_key(to), polarity),
        ));
    }

    /// The first node of the given name.
    pub fn find_node(&self, name: &str) -> (r: Option<GraphNode>)
        ensures
            match r {
                Some(n) => named_node(self.node_view(), name@) == Some(node_key(n)),
                None => named_node(self.node_view(), name@) is None,
            },
    {
        let wanted = String::from_str(name);
        let ghost all = self.node_view();
        let mut i: usize = 0;
        assert(all.skip(0) =~= all);
        while i < self.nodes.len()
            invariant
                i <= self.nodes@.len(),
                all == self.node_view(),
                wanted@ == name@,
                named_node(all, name@) == named_node(all.skip(i as int), name@),
            decreases self.nodes@.len() - i,
        {
            proof {
                assert(all.skip(i as int)[0] == node_key(self.nodes@[i as int]));
                assert(all.skip(i as int).drop_first() =~= all.skip(i + 1));
            }
            if self.nodes[i].name == wanted {
                return Some(copy_node(&self.nodes[i]));
            }
            i += 1;
        }
        None
    }

    /// The nodes that the links from `node` lead to, in the order of the links.
    pub fn neighbors(&self, node: &GraphNode) -> (r: Vec<GraphNode>)
        ensures
            node_keys(r@) == targets(self.edge_view(), node_key(*node)),
    {
        let ghost all = self.edge_view();
        let mut r: Vec<GraphNode> = Vec::new();
        let mut i: usize = 0;
        assert(node_keys(r@) =~= targets(all.take(0), node_key(*node)));
        while i < self.edges.len()
            invariant
                i <= self.edges@.len(),
                all == self.edge_view(),
                node_keys(r@) == targets(all.take(i as int), node_key(*node)),
            decreases self.edges@.len() - i,
        {
            proof {
                assert(all.take(i + 1).drop_last() =~= all.take(i as int));
                assert(all.take(i + 1).last() == edge_key(self.edges@[i as int]));
            }
            if same_node(&self.edges[i].from, node) {
                let ghost before = node_keys(r@);
                r.push(copy_node(&self.edges[i].to));
                assert(node_keys(r@) =~= before.push(node_key(self.edges@[i as int].to)));
            }
            i += 1;
        }
        assert(all.take(self.edges@.len() as int) =~= all);
        r
    }

    /// The names of the variables that an expression mentions, each once, in
    /// the order in which it first occurs.
    pub fn extract_dependencies(expr: &Expression) -> (r: Vec<String>)
        ensures
            texts(r@) == with_mentioned(Seq::empty(), expr@),
    {
        let mut names: Vec<String> = Vec::new();
        assert(texts(names@) =~= Seq::<Seq<char>>::empty());
        collect_names(expr, &mut names);
        names
    }
}

/// The links with one more from `from` to the first node called `to`, where
/// there is such a node.
pub open spec fn with_link_to(
    nodes: Seq<NodeKey>,
    edges: Seq<EdgeKey>,
    from: NodeKey,
    to: Seq<char>,
    polarity: Polarity,
) -> Seq<EdgeKey> {
    match named_node(nodes, to) {
        Some(n) => edges.push((from, n, polarity)),
        None => edges,
    }
}

/// The links with those from `from` to the first `count` of the names.
pub open spec fn with_links_to(
    nodes: Seq<NodeKey>,
    edges: Seq<EdgeKey>,
    from: NodeKey,
    names: Seq<Seq<char>>,
    count: int,
) -> Seq<EdgeKey>
    decreases count,
{
    if count <= 0 {
        edges
    } else {
        with_link_to(
            nodes,
            with_links_to(nodes, edges, from, names, count - 1),
            from,
            names[count - 1],
            Polarity::Unknown,
        )
    }
}

/// The links with those from the first `count` of the flows named, where they
/// are nodes, to the stock.
pub open spec fn with_links_from(
    nodes: Seq<NodeKey>,
    edges: Seq<EdgeKey>,
    stock: NodeKey,
    names: Seq<Seq<char>>,
    polarity: Polarity,
    count: int,
) -> Seq<EdgeKey>
    decreases count,
{
    if count <= 0 {
        edges
    } else {
        let before = with_links_from(nodes, edges, stock, names, polarity, count - 1);
        match named_node(nodes, names[count - 1]) {
            Some(n) => before.push((n, stock, polarity)),
            None => before,
        }
    }
}

/// The links with those of the equations of the first `count` flows: from each
/// flow to each variable its equation mentions.
pub open spec fn with_flow_links(nodes: Seq<NodeKey>, edges: Seq<EdgeKey>, flows: Seq<Flow>, count: int)
    -> Seq<EdgeKey>
    decreases count,
{
    if count <= 0 {
        edges
    } else {
        let names = with_mentioned(Seq::empty(), flows[count - 1].equation@);
        with_links_to(
            nodes,
            with_flow_links(nodes, edges, flows, count - 1),
            (flows[count - 1].name@, ElementType::Flow),
            names,
            names.len() as int,
        )
    }
}

/// The links with those of the equations of the first `count` auxiliaries.
pub open spec fn with_auxiliary_links(
    nodes: Seq<NodeKey>,
    edges: Seq<EdgeKey>,
    auxiliaries: Seq<Auxiliary>,
    count: int,
) -> Seq<EdgeKey>
    decreases count,
{
    if count <= 0 {
        edges
    } else {
        let names = with_mentioned(Seq::empty(), auxiliaries[count - 1].equation@);
        with_links_to(
            nodes,
            with_auxiliary_links(nodes, edges, auxiliaries, count - 1),
            (auxiliaries[count - 1].name@, ElementType::Auxiliary),
            names,
            names.len() as int,
        )
    }
}

/// The links with those of the first `count` stocks: a positive link from each
/// inflow and a negative link from each outflow.
pub open spec fn with_stock_links(nodes: Seq<NodeKey>, edges: Seq<EdgeKey>, stocks: Seq<Stock>, count: int)
    -> Seq<EdgeKey>
    decreases count,
{
    if count <= 0 {
        edges
    } else {
        let stock = stocks[count - 1];
        let key = (stock.name@, ElementType::Stock);
        let before = with_stock_links(nodes, edges, stocks, count - 1);
        let with_in = with_links_from(
            nodes,
            before,
            key,
            texts(stock.inflows@),
            Polarity::Positive,
            stock.inflows@.len() as int,
        );
        with_links_from(
            nodes,
            with_in,
            key,
            texts(stock.outflows@),
            Polarity::Negative,
            stock.outflows@.len() as int,
        )
    }
}

/// The nodes with one of the given kind for each of the first `count` names.
pub open spec fn with_nodes(nodes: Seq<NodeKey>, names: Seq<Seq<char>>, kind: ElementType, count: int)
    -> Seq<NodeKey>
    decreases count,
{
    if count <= 0 {
        nodes
    } else {
        with_node(with_nodes(nodes, names, kind, count - 1), (names[count - 1], kind))
    }
}

/// The nodes of the graph of a model: its stocks, flows, auxiliaries and parameters.
pub open spec fn model_node_keys(model: Model) -> Seq<NodeKey> {
    let a = with_nodes(
        Seq::empty(),
        crate::model::named::labels(model.stock_list()),
        ElementType::Stock,
        model.stock_list().len() as int,
    );
    let b = with_nodes(
        a,
        crate::model::named::labels(model.flow_list()),
        ElementType::Flow,
        model.flow_list().len() as int,
    );
    let c = with_nodes(
        b,
        crate::model::named::labels(model.auxiliary_list()),
        ElementType::Auxiliary,
        model.auxiliary_list().len() as int,
    );
    with_nodes(
        c,
        crate::model::named::labels(model.parameter_list()),
        ElementType::Parameter,
        model.parameter_list().len() as int,
    )
}

/// The links of the graph of a model: those of the flow equations, then those
/// of the auxiliary equations, then those between flows and stocks.
pub open spec fn model_edge_keys(model: Model) -> Seq<EdgeKey> {
    let nodes = model_node_keys(model);
    let a = with_flow_links(nodes, Seq::empty(), model.flow_list(), model.flow_list().len() as int);
    let b = with_auxiliary_links(
        nodes,
        a,
        model.auxiliary_list(),
        model.auxiliary_list().len() as int,
    );
    with_stock_links(nodes, b, model.stock_list(), model.stock_list().len() as int)
}

fn add_named_nodes<T: crate::model::named::Named>(
    graph: &mut DependencyGraph,
    items: &Vec<T>,
    kind: ElementType,
)
    ensures
        final(graph).node_view() == with_nodes(
            old(graph).node_view(),
            crate::model::named::labels(items@),
            kind,
            items@.len() as int,
        ),
        final(graph).edges == old(graph).edges,
{
    let mut i: usize = 0;
    while i < items.len()
        invariant
            i <= items@.len(),
            graph.edges == old(graph).edges,
            graph.node_view() == with_nodes(
                old(graph).node_view(),
                crate::model::named::labels(items@),
                kind,
                i as int,
            ),
        decreases items@.len() - i,
    {
        graph.add_node(GraphNode::new(items[i].name_ref().clone(), kind));
        i += 1;
    }
}

fn add_links_to(graph: &mut DependencyGraph, from: &GraphNode, names: &Vec<String>)
    ensures
        final(graph).nodes == old(graph).nodes,
        final(graph).edge_view() == with_links_to(
            old(graph).node_view(),
            old(graph).edge_view(),
            node_key(*from),
            texts(names@),
            names@.len() as int,
        ),
{
    let mut k: usize = 0;
    while k < names.len()
        invariant
            k <= names@.len(),
            graph.nodes == old(graph).nodes,
            graph.edge_view() == with_links_to(
                old(graph).node_view(),
                old(graph).edge_view(),
                node_key(*from),
                texts(names@),
                k as int,
            ),
        decreases names@.len() - k,
    {
        if let Some(to) = graph.find_node(names[k].as_str()) {
            graph.add_edge(copy_node(from), to, Polarity::Unknown);
        }
        k += 1;
    }
}

fn add_links_from(graph: &mut DependencyGraph, stock: &GraphNode, names: &Vec<String>, polarity: Polarity)
    ensures
        final(graph).nodes == old(graph).nodes,
        final(graph).edge_view() == with_links_from(
            old(graph).node_view(),
            old(graph).edge_view(),
            node_key(*stock),
            texts(names@),
            polarity,
            names@.len() as int,
        ),
{
    let mut k: usize = 0;
    while k < names.len()
        invariant
            k <= names@.len(),
            graph.nodes == old(graph).nodes,
            graph.edge_view() == with_links_from(
                old(graph).node_view(),
                old(graph).edge_view(),
                node_key(*stock),
                texts(names@),
                polarity,
                k as int,
            ),
        decreases names@.len() - k,
    {
        if let Some(flow) = graph.find_node(names[k].as_str()) {
            graph.add_edge(flow, copy_node(stock), polarity);
        }
        k += 1;
    }
}

impl DependencyGraph {
    /// The graph of a model: a node for each stock, flow, auxiliary and
    /// parameter; a link from each flow and auxiliary to each variable its
    /// equation mentions; a positive link from each inflow to its stock and a
    /// negative link from each outflow.
    pub fn from_model(model: &Model) -> (r: DependencyGraph)
        ensures
            r.node_view() == model_node_keys(*model),
            r.edge_view() == model_edge_keys(*model),
    {
        let mut graph = DependencyGraph::new();
        assert(graph.node_view() =~= Seq::<NodeKey>::empty());
        assert(graph.edge_view() =~= Seq::<EdgeKey>::empty());
        add_named_nodes(&mut graph, model.stocks(), ElementType::Stock);
        add_named_nodes(&mut graph, model.flows(), ElementType::Flow);
        add_named_nodes(&mut graph, model.auxiliaries(), ElementType::Auxiliary);
        add_named_nodes(&mut graph, model.parameters(), ElementType::Parameter);
        assert(graph.edge_view() =~= Seq::<EdgeKey>::empty());
        let ghost nodes = graph.node_view();
        let flows = model.flows();
        let mut i: usize = 0;
        while i < flows.len()
            invariant
                i <= flows@.len(),
                flows@ == model.flow_list(),
                graph.node_view() == nodes,
                graph.edge_view() == with_flow_links(nodes, Seq::empty(), flows@, i as int),
            decreases flows@.len() - i,
        {
            let names = Self::extract_dependencies(&flows[i].equation);
            let from = GraphNode::new(flows[i].name.clone(), ElementType::Flow);
            add_links_to(&mut graph, &from, &names);
            i += 1;
        }
        let auxiliaries = model.auxiliaries();
        let ghost after_flows = graph.edge_view();
        let mut j: usize = 0;
        while j < auxiliaries.len()
            invariant
                j <= auxiliaries@.len(),
                auxiliaries@ == model.auxiliary_list(),
                graph.node_view() == nodes,
                graph.edge_view() == with_auxiliary_links(nodes, after_flows, auxiliaries@, j as int),
            decreases auxiliaries@.len() - j,
        {
            let names = Self::extract_dependencies(&auxiliaries[j].equation);
            let from = GraphNode::new(auxiliaries[j].name.clone(), ElementType::Auxiliary);
            add_links_to(&mut graph, &from, &names);
            j += 1;
        }
        let stocks = model.stocks();
        let ghost after_auxiliaries = graph.edge_view();
        let mut k: usize = 0;
        while k < stocks.len()
            invariant
                k <= stocks@.len(),
                stocks@ == model.stock_list(),
                graph.node_view() == nodes,
                graph.edge_view() == with_stock_links(nodes, after_auxiliaries, stocks@, k as int),
            decreases stocks@.len() - k,
        {
            let stock = GraphNode::new(stocks[k].name.clone(), ElementType::Stock);
            add_links_from(&mut graph, &stock, &stocks[k].inflows, Polarity::Positive);
            add_links_from(&mut graph, &stock, &stocks[k].outflows, Polarity::Negative);
            k += 1;
        }
        graph
    }
}

/// The polarity of the first link from `a` to `b`, if there is one.
pub open spec fn link_polarity(edges: Seq<EdgeKey>, a: NodeKey, b: NodeKey) -> Option<Polarity>
    decreases edges.len(),
{
    if edges.len() == 0 {
        None
    } else if edges[0].0 == a && edges[0].1 == b {
        Some(edges[0].2)
    } else {
        link_polarity(edges.drop_first(), a, b)
    }
}

/// The polarity of the first `count` steps of a closed path: the polarities
/// of the links from each node to the next, and from the last to the first,
/// combined; a step without a link leaves the polarity as it is.
pub open spec fn path_polarity(edges: Seq<EdgeKey>, path: Seq<NodeKey>, count: int) -> Polarity
    decreases count,
{
    if count <= 0 || path.len() == 0 {
        Polarity::Positive
    } else {
        let before = path_polarity(edges, path, count - 1);
        match link_polarity(edges, path[count - 1], path[count % (path.len() as int)]) {
            Some(p) => combined(before, p),
            None => before,
        }
    }
}

/// A feedback loop as a mathematical value: its nodes, its polarity, its length.
pub type LoopKey = (Seq<NodeKey>, Polarity, usize);

pub open spec fn loop_key(l: FeedbackLoop) -> LoopKey {
    (node_keys(l.nodes@), l.polarity, l.length)
}

/// The loops as mathematical values, in order.
pub open spec fn loop_keys(loops: Seq<FeedbackLoop>) -> Seq<LoopKey> {
    Seq::new(loops.len(), |i: int| loop_key(loops[i]))
}

/// Whether a link leads from each node of the path to the next.
pub open spec fn chained(edges: Seq<EdgeKey>, path: Seq<NodeKey>) -> bool {
    forall|i: int|
        0 <= i < path.len() - 1 ==> targets(edges, #[trigger] path[i]).contains(path[i + 1])
}

/// Whether the loop is a loop of the graph: at least two nodes, none of them
/// twice, with a link from each to the next and from the last to the first,
/// and with the polarity and the length of that path.
pub open spec fn is_feedback_loop(edges: Seq<EdgeKey>, l: LoopKey) -> bool {
    let path = l.0;
    &&& path.len() >= 2
    &&& l.2 == path.len()
    &&& path.no_duplicates()
    &&& chained(edges, path)
    &&& targets(edges, path.last()).contains(path[0])
    &&& l.1 == path_polarity(edges, path, path.len() as int)
}

/// Whether one of the nodes has the given name.
pub open spec fn has_name(nodes: Seq<NodeKey>, name: Seq<char>) -> bool {
    exists|j: int| 0 <= j < nodes.len() && (#[trigger] nodes[j]).0 == name
}

/// Whether each of the loops is a loop of the graph of at most `max_length + 1` nodes.
pub open spec fn all_loops(edges: Seq<EdgeKey>, loops: Seq<LoopKey>, max_length: usize) -> bool {
    forall|k: int|
        0 <= k < loops.len() ==> is_feedback_loop(edges, #[trigger] loops[k]) && loops[k].2
            <= max_length + 1
}

/// A path that is continued along a link to a node it has not passed stays a path.
pub proof fn lemma_path_extended(edges: Seq<EdgeKey>, before: Seq<NodeKey>, current: NodeKey)
    requires
        before.no_duplicates(),
        !before.contains(current),
        chained(edges, before),
        before.len() > 0 ==> targets(edges, before.last()).contains(current),
    ensures
        before.push(current).no_duplicates(),
        chained(edges, before.push(current)),
{
    let here = before.push(current);
    assert forall|i: int, j: int| 0 <= i < here.len() && 0 <= j < here.len() && i != j implies here[i]
        != here[j] by {
        if i < before.len() && j < before.len() {
            assert(before[i] != before[j]);
        } else if i < before.len() {
            assert(before.contains(before[i]));
        } else {
            assert(before.contains(before[j]));
        }
    }
    assert forall|i: int| 0 <= i < here.len() - 1 implies targets(edges, #[trigger] here[i]).contains(
        here[i + 1],
    ) by {
        if i < before.len() - 1 {
            assert(here[i] == before[i]);
            assert(here[i + 1] == before[i + 1]);
        } else {
            assert(here[i] == before.last());
        }
    }
}

/// Loops of the graph with one more are loops of the graph.
pub proof fn lemma_loops_pushed(
    edges: Seq<EdgeKey>,
    earlier: Seq<LoopKey>,
    found: LoopKey,
    max_length: usize,
)
    requires
        all_loops(edges, earlier, max_length),
        is_feedback_loop(edges, found),
        found.2 <= max_length + 1,
    ensures
        all_loops(edges, earlier.push(found), max_length),
{
    let now = earlier.push(found);
    assert forall|k: int| 0 <= k < now.len() implies is_feedback_loop(edges, #[trigger] now[k])
        && now[k].2 <= max_length + 1 by {
        if k < earlier.len() {
            assert(now[k] == earlier[k]);
        }
    }
}

/// Whether the path is a closed path of the graph: at least two nodes, none
/// of them twice, with a link from each to the next and from the last to the
/// first.
pub open spec fn is_cycle(edges: Seq<EdgeKey>, path: Seq<NodeKey>) -> bool {
    &&& path.len() >= 2
    &&& path.no_duplicates()
    &&& chained(edges, path)
    &&& targets(edges, path.last()).contains(path[0])
}

/// Whether the path starts with the nodes of `stem`, in their order.
pub open spec fn starts_with(path: Seq<NodeKey>, stem: Seq<NodeKey>) -> bool {
    stem.len() <= path.len() && forall|k: int| 0 <= k < stem.len() ==> path[k] == stem[k]
}

/// Whether `later` holds the loops of `earlier`, in their places, and perhaps more.
pub open spec fn grown_from(later: Seq<LoopKey>, earlier: Seq<LoopKey>) -> bool {
    earlier.len() <= later.len() && forall|k: int|
        0 <= k < earlier.len() ==> later[k] == earlier[k]
}

/// Whether one of the loops passes through exactly the nodes of the path, in its order.
pub open spec fn holds_path(loops: Seq<LoopKey>, path: Seq<NodeKey>) -> bool {
    exists|k: int| 0 <= k < loops.len() && (#[trigger] loops[k]).0 == path
}

/// The node that follows the first `count` nodes on the way round a closed
/// path: the first node again after the last.
pub open spec fn next_on(path: Seq<NodeKey>, count: int) -> NodeKey {
    if count < path.len() {
        path[count]
    } else {
        path[0]
    }
}

/// Whether the loops hold every closed path of the graph of at most
/// `max_length + 1` nodes that starts with `stem` and then goes on to one of
/// the first `count` of the nodes `next`.
pub open spec fn holds_paths_through(
    edges: Seq<EdgeKey>,
    loops: Seq<LoopKey>,
    stem: Seq<NodeKey>,
    next: Seq<NodeKey>,
    count: int,
    max_length: usize,
) -> bool {
    forall|p: Seq<NodeKey>|
        #![trigger is_cycle(edges, p)]
        is_cycle(edges, p) && starts_with(p, stem) && p.len() <= max_length + 1 && next.take(
            count,
        ).contains(next_on(p, stem.len() as int)) ==> holds_path(loops, p)
}

/// Whether the loops hold every closed path of the graph of at most
/// `max_length + 1` nodes that starts with `stem`.
pub open spec fn holds_paths_from(
    edges: Seq<EdgeKey>,
    loops: Seq<LoopKey>,
    stem: Seq<NodeKey>,
    max_length: usize,
) -> bool {
    forall|p: Seq<NodeKey>|
        #![trigger is_cycle(edges, p)]
        is_cycle(edges, p) && starts_with(p, stem) && p.len() <= max_length + 1 ==> holds_path(
            loops,
            p,
        )
}

/// Whether each loop from the place `from` on starts with `stem`.
pub open spec fn start_with_from(loops: Seq<LoopKey>, from: int, stem: Seq<NodeKey>) -> bool {
    forall|k: int| from <= k < loops.len() ==> starts_with((#[trigger] loops[k]).0, stem)
}

/// A path that more loops hold is still held.
pub proof fn lemma_still_held(later: Seq<LoopKey>, earlier: Seq<LoopKey>, path: Seq<NodeKey>)
    requires
        grown_from(later, earlier),
        holds_path(earlier, path),
    ensures
        holds_path(later, path),
{
    let k = choose|k: int| 0 <= k < earlier.len() && (#[trigger] earlier[k]).0 == path;
    assert(later[k].0 == path);
}

/// After the last node of a stem of a closed path, the path goes on to a
/// node that a link from that node leads to.
pub proof fn lemma_next_is_target(edges: Seq<EdgeKey>, p: Seq<NodeKey>, stem: Seq<NodeKey>)
    requires
        is_cycle(edges, p),
        starts_with(p, stem),
        stem.len() >= 1,
    ensures
        targets(edges, stem.last()).contains(next_on(p, stem.len() as int)),
{
    let n = stem.len() as int;
    assert(p[n - 1] == stem[n - 1]);
    if n < p.len() {
        assert(targets(edges, p[n - 1]).contains(p[n - 1 + 1]));
    } else {
        assert(p.last() == p[n - 1]);
    }
}

/// Whether the loops are what a search that has come along `stem` leaves
/// after it has looked at the node `seen`: with `seen` the start of the search
/// and more than one node on the stem, the stem itself was added as a loop;
/// with `seen` a node off the stem, every closed path that goes on to it from
/// the stem is held, and what was added starts with the stem and that node;
/// else nothing was added.
pub open spec fn looked_at(
    edges: Seq<EdgeKey>,
    earlier: Seq<LoopKey>,
    later: Seq<LoopKey>,
    stem: Seq<NodeKey>,
    seen: NodeKey,
    max_length: usize,
) -> bool {
    if seen == stem[0] && stem.len() > 1 {
        later.len() == earlier.len() + 1 && grown_from(later, earlier) && later.last().0 == stem
    } else if !stem.contains(seen) {
        &&& grown_from(later, earlier)
        &&& start_with_from(later, earlier.len() as int, stem.push(seen))
        &&& holds_paths_from(edges, later, stem.push(seen), max_length)
    } else {
        later == earlier
    }
}

/// Looking at one more of the nodes that follow the stem keeps what the
/// search has established so far and adds the closed paths through that node.
pub proof fn lemma_search_goes_on(
    edges: Seq<EdgeKey>,
    first: Seq<LoopKey>,
    earlier: Seq<LoopKey>,
    later: Seq<LoopKey>,
    stem: Seq<NodeKey>,
    next: Seq<NodeKey>,
    i: int,
    max_length: usize,
)
    requires
        0 <= i < next.len(),
        stem.len() >= 1,
        grown_from(earlier, first),
        start_with_from(earlier, first.len() as int, stem),
        holds_paths_through(edges, earlier, stem, next, i, max_length),
        looked_at(edges, earlier, later, stem, next[i], max_length),
    ensures
        grown_from(later, first),
        start_with_from(later, first.len() as int, stem),
        holds_paths_through(edges, later, stem, next, i + 1, max_length),
{
    let seen = next[i];
    let n = stem.len() as int;
    assert(grown_from(later, earlier));
    assert forall|k: int| first.len() <= k < later.len() implies starts_with(
        (#[trigger] later[k]).0,
        stem,
    ) by {
        if k < earlier.len() {
            assert(later[k] == earlier[k]);
        } else if seen == stem[0] && stem.len() > 1 {
            assert(later[k] == later.last());
        } else {
            assert(!stem.contains(seen));
            assert(starts_with(later[k].0, stem.push(seen)));
            assert forall|m: int| 0 <= m < stem.len() implies later[k].0[m] == stem[m] by {
                assert(stem.push(seen)[m] == stem[m]);
            }
        }
    }
    assert forall|p: Seq<NodeKey>|
        #![trigger is_cycle(edges, p)]
        is_cycle(edges, p) && starts_with(p, stem) && p.len() <= max_length + 1 && next.take(
            i + 1,
        ).contains(next_on(p, n)) implies holds_path(later, p) by {
        let q = next_on(p, n);
        let shown = next.take(i + 1);
        let j = choose|j: int| 0 <= j < shown.len() && #[trigger] shown[j] == q;
        if j < i {
            assert(next.take(i)[j] == q);
            assert(next.take(i).contains(q));
            assert(holds_path(earlier, p));
            lemma_still_held(later, earlier, p);
        } else {
            assert(q == seen);
            assert(p[0] == stem[0]);
            if n < p.len() {
                assert(q == p[n]);
                if seen == stem[0] {
                    assert(p[n] == p[0]);
                    assert(false);
                }
                if stem.contains(seen) {
                    let m = choose|m: int| 0 <= m < stem.len() && stem[m] == seen;
                    assert(p[m] == p[n]);
                    assert(false);
                }
                assert forall|k: int| 0 <= k < stem.push(seen).len() implies p[k] == stem.push(
                    seen,
                )[k] by {
                    if k < n {
                        assert(stem.push(seen)[k] == stem[k]);
                    }
                }
                assert(starts_with(p, stem.push(seen)));
                assert(holds_path(later, p));
            } else {
                assert(p.len() == n);
                assert(p =~= stem);
                assert(q == p[0]);
                assert(seen == stem[0] && stem.len() > 1);
                assert(later[later.len() - 1].0 == p);
                assert(holds_path(later, p));
            }
        }
    }
}

/// Once the search has looked at every node that a link from the end of the
/// stem leads to, it holds every closed path that starts with the stem.
pub proof fn lemma_search_done(
    edges: Seq<EdgeKey>,
    loops: Seq<LoopKey>,
    stem: Seq<NodeKey>,
    next: Seq<NodeKey>,
    max_length: usize,
)
    requires
        stem.len() >= 1,
        next == targets(edges, stem.last()),
        holds_paths_through(edges, loops, stem, next, next.len() as int, max_length),
    ensures
        holds_paths_from(edges, loops, stem, max_length),
{
    assert(next.take(next.len() as int) =~= next);
    assert forall|p: Seq<NodeKey>|
        #![trigger is_cycle(edges, p)]
        is_cycle(edges, p) && starts_with(p, stem) && p.len() <= max_length + 1 implies holds_path(
        loops,
        p,
    ) by {
        lemma_next_is_target(edges, p, stem);
    }
}

/// Whether every name of a node of `a` is the name of a node of `b`.
pub open spec fn names_within(a: Seq<NodeKey>, b: Seq<NodeKey>) -> bool {
    forall|i: int| 0 <= i < a.len() ==> has_name(b, (#[trigger] a[i]).0)
}

/// Whether two paths pass through nodes of the same names.
pub open spec fn same_names(a: Seq<NodeKey>, b: Seq<NodeKey>) -> bool {
    names_within(a, b) && names_within(b, a)
}

/// Whether one of the first `count` loops passes through the same names as `l`.
pub open spec fn seen_among(kept: Seq<LoopKey>, l: LoopKey) -> bool {
    exists|j: int| 0 <= j < kept.len() && same_names((#[trigger] kept[j]).0, l.0)
}

/// Of the first `count` loops, the first of each set of names.
pub open spec fn kept(loops: Seq<LoopKey>, count: int) -> Seq<LoopKey>
    decreases count,
{
    if count <= 0 {
        Seq::empty()
    } else {
        let before = kept(loops, count - 1);
        if seen_among(before, loops[count - 1]) {
            before
        } else {
            before.push(loops[count - 1])
        }
    }
}

fn node_has_name(nodes: &Vec<GraphNode>, name: &String) -> (r: bool)
    ensures
        r == has_name(node_keys(nodes@), name@),
{
    let ghost keys = node_keys(nodes@);
    let mut j: usize = 0;
    while j < nodes.len()
        invariant
            j <= nodes@.len(),
            keys == node_keys(nodes@),
            forall|m: int| 0 <= m < j ==> (#[trigger] keys[m]).0 != name@,
        decreases nodes@.len() - j,
    {
        if nodes[j].name == *name {
            assert(keys[j as int].0 == name@);
            return true;
        }
        j += 1;
    }
    false
}

fn has_names_within(a: &Vec<GraphNode>, b: &Vec<GraphNode>) -> (r: bool)
    ensures
        r == names_within(node_keys(a@), node_keys(b@)),
{
    let ghost ka = node_keys(a@);
    let mut i: usize = 0;
    while i < a.len()
        invariant
            i <= a@.len(),
            ka == node_keys(a@),
            forall|k: int| 0 <= k < i ==> has_name(node_keys(b@), (#[trigger] ka[k]).0),
        decreases a@.len() - i,
    {
        if !node_has_name(b, &a[i].name) {
            assert(ka[i as int].0 == a@[i as int].name@);
            return false;
        }
        assert(ka[i as int].0 == a@[i as int].name@);
        i += 1;
    }
    true
}

/// A copy of a loop.
pub fn copy_loop(l: &FeedbackLoop) -> (r: FeedbackLoop)
    ensures
        loop_key(r) == loop_key(*l),
{
    FeedbackLoop { nodes: copy_nodes(&l.nodes), polarity: l.polarity, length: l.length }
}

impl DependencyGraph {
    /// The polarity of the first link from `from` to `to`.
    fn edge_polarity(&self, from: &GraphNode, to: &GraphNode) -> (r: Option<Polarity>)
        ensures
            r == link_polarity(self.edge_view(), node_key(*from), node_key(*to)),
    {
        let ghost all = self.edge_view();
        let mut i: usize = 0;
        assert(all.skip(0) =~= all);
        while i < self.edges.len()
            invariant
                i <= self.edges@.len(),
                all == self.edge_view(),
                link_polarity(all, node_key(*from), node_key(*to)) == link_polarity(
                    all.skip(i as int),
                    node_key(*from),
                    node_key(*to),
                ),
            decreases self.edges@.len() - i,
        {
            proof {
                assert(all.skip(i as int)[0] == edge_key(self.edges@[i as int]));
                assert(all.skip(i as int).drop_first() =~= all.skip(i + 1));
            }
            if same_node(&self.edges[i].from, from) && same_node(&self.edges[i].to, to) {
                return Some(self.edges[i].polarity);
            }
            i += 1;
        }
        None
    }

    /// The polarity of a closed path.
    pub fn calculate_loop_polarity(&self, path: &Vec<GraphNode>) -> (r: Polarity)
        ensures
            r == path_polarity(self.edge_view(), node_keys(path@), path@.len() as int),
    {
        let n = path.len();
        let mut polarity = Polarity::Positive;
        let mut i: usize = 0;
        while i < n
            invariant
                n == path@.len(),
                i <= n,
                polarity == path_polarity(self.edge_view(), node_keys(path@), i as int),
            decreases n - i,
        {
            let next = if i + 1 == n {
                0
            } else {
                i + 1
            };
            assert(next == (i + 1) % (n as int)) by {
                if i + 1 == n {
                    assert((n as int) % (n as int) == 0);
                } else {
                    vstd::arithmetic::div_mod::lemma_small_mod((i + 1) as nat, n as nat);
                }
            }
            match self.edge_polarity(&path[i], &path[next]) {
                Some(p) => {
                    polarity = polarity.combine(&p);
                },
                None => {},
            }
            i += 1;
        }
        polarity
    }

    /// Follows the links from `current` and adds to `loops` each way back to
    /// `start`, without passing through a node twice and without going deeper
    /// than `max_length`.
    #[verifier::rlimit(60)]
    fn dfs_find_loops(
        &self,
        current: &GraphNode,
        start: &GraphNode,
        path: &mut Vec<GraphNode>,
        loops: &mut Vec<FeedbackLoop>,
        max_length: usize,
    )
        requires
            max_length < usize::MAX,
            node_keys(old(path)@).no_duplicates(),
            !node_keys(old(path)@).contains(node_key(*current)),
            chained(self.edge_view(), node_keys(old(path)@)),
            old(path)@.len() == 0 ==> node_key(*current) == node_key(*start),
            old(path)@.len() > 0 ==> node_keys(old(path)@)[0] == node_key(*start) && targets(
                self.edge_view(),
                node_keys(old(path)@).last(),
            ).contains(node_key(*current)),
            all_loops(self.edge_view(), loop_keys(old(loops)@), max_length),
        ensures
            node_keys(final(path)@) == node_keys(old(path)@),
            all_loops(self.edge_view(), loop_keys(final(loops)@), max_length),
            grown_from(loop_keys(final(loops)@), loop_keys(old(loops)@)),
            start_with_from(
                loop_keys(final(loops)@),
                old(loops)@.len() as int,
                node_keys(old(path)@).push(node_key(*current)),
            ),
            holds_paths_from(
                self.edge_view(),
                loop_keys(final(loops)@),
                node_keys(old(path)@).push(node_key(*current)),
                max_length,
            ),
        decreases max_length as int + 1 - old(path)@.len(),
    {
        if path.len() > max_length {
            return ;
        }
        let ghost before = node_keys(path@);
        let ghost first = loop_keys(loops@);
        path.push(copy_node(current));
        let ghost here = node_keys(path@);
        proof {
            assert(here =~= before.push(node_key(*current)));
            lemma_path_extended(self.edge_view(), before, node_key(*current));
        }
        let neighbors = self.neighbors(current);
        let mut i: usize = 0;
        while i < neighbors.len()
            invariant
                first == loop_keys(old(loops)@),
                grown_from(loop_keys(loops@), first),
                start_with_from(loop_keys(loops@), first.len() as int, here),
                holds_paths_through(
                    self.edge_view(),
                    loop_keys(loops@),
                    here,
                    node_keys(neighbors@),
                    i as int,
                    max_length,
                ),
                i <= neighbors@.len(),
                max_length < usize::MAX,
                node_keys(path@) == here,
                path@.len() == before.len() + 1,
                before.len() == old(path)@.len(),
                here == before.push(node_key(*current)),
                here.len() <= max_length + 1,
                here.no_duplicates(),
                chained(self.edge_view(), here),
                here[0] == node_key(*start),
                node_keys(neighbors@) == targets(self.edge_view(), node_key(*current)),
                all_loops(self.edge_view(), loop_keys(loops@), max_length),
            decreases neighbors@.len() - i,
        {
            let neighbor = &neighbors[i];
            let ghost earlier = loop_keys(loops@);
            proof {
                assert(node_keys(neighbors@)[i as int] == node_key(*neighbor));
                assert(targets(self.edge_view(), here.last()).contains(node_key(*neighbor)));
            }
            if same_node(neighbor, start) && path.len() > 1 {
                let polarity = self.calculate_loop_polarity(path);
                let nodes = copy_nodes(path);
                let length = path.len();
                let found = FeedbackLoop { nodes, polarity, length };
                loops.push(found);
                proof {
                    assert(loop_keys(loops@) =~= earlier.push(loop_key(found)));
                    assert(is_feedback_loop(self.edge_view(), loop_key(found)));
                    lemma_loops_pushed(self.edge_view(), earlier, loop_key(found), max_length);
                    assert(loop_keys(loops@).last().0 == here);
                }
            } else if !contains_node(path, neighbor) {
                self.dfs_find_loops(neighbor, start, path, loops, max_length);
            }
            proof {
                lemma_search_goes_on(
                    self.edge_view(),
                    first,
                    earlier,
                    loop_keys(loops@),
                    here,
                    node_keys(neighbors@),
                    i as int,
                    max_length,
                );
            }
            i += 1;
        }
        proof {
            lemma_search_done(
                self.edge_view(),
                loop_keys(loops@),
                here,
                node_keys(neighbors@),
                max_length,
            );
        }
        let ghost full = path@;
        path.pop();
        proof {
            assert(path@ =~= full.drop_last());
            assert forall|k: int| 0 <= k < path@.len() implies node_key(path@[k]) == before[k] by {
                assert(node_keys(full)[k] == node_key(full[k]));
                assert(here[k] == before[k]);
            }
            assert(node_keys(path@) =~= before);
        }
    }

    /// Of the loops, the first of each set of node names.
    fn deduplicate_loops(loops: Vec<FeedbackLoop>) -> (r: Vec<FeedbackLoop>)
        ensures
            loop_keys(r@) == kept(loop_keys(loops@), loops@.len() as int),
            forall|j: int|
                0 <= j < r@.len() ==> exists|i: int|
                    0 <= i < loops@.len() && loop_key(#[trigger] r@[j]) == loop_key(
                        #[trigger] loops@[i],
                    ),
    {
        let ghost all = loop_keys(loops@);
        let mut unique: Vec<FeedbackLoop> = Vec::new();
        let mut i: usize = 0;
        assert(loop_keys(unique@) =~= kept(all, 0));
        while i < loops.len()
            invariant
                i <= loops@.len(),
                all == loop_keys(loops@),
                loop_keys(unique@) == kept(all, i as int),
                forall|j: int|
                    0 <= j < unique@.len() ==> exists|m: int|
                        0 <= m < loops@.len() && loop_key(#[trigger] unique@[j]) == loop_key(
                            #[trigger] loops@[m],
                        ),
            decreases loops@.len() - i,
        {
            let mut seen = false;
            let mut j: usize = 0;
            let ghost so_far = loop_keys(unique@);
            while j < unique.len() && !seen
                invariant
                    j <= unique@.len(),
                    i < loops@.len(),
                    so_far == loop_keys(unique@),
                    seen ==> seen_among(so_far, loop_key(loops@[i as int])),
                    !seen ==> forall|m: int|
                        0 <= m < j ==> !same_names(
                            (#[trigger] so_far[m]).0,
                            loop_key(loops@[i as int]).0,
                        ),
                decreases unique@.len() - j,
            {
                if has_names_within(&unique[j].nodes, &loops[i].nodes) && has_names_within(
                    &loops[i].nodes,
                    &unique[j].nodes,
                ) {
                    assert(same_names(so_far[j as int].0, loop_key(loops@[i as int]).0));
                    seen = true;
                }
                j += 1;
            }
            proof {
                assert(all[i as int] == loop_key(loops@[i as int]));
            }
            if !seen {
                let ghost earlier = unique@;
                unique.push(copy_loop(&loops[i]));
                assert(loop_keys(unique@) =~= so_far.push(loop_key(loops@[i as int])));
                assert forall|j: int| 0 <= j < unique@.len() implies exists|m: int|
                    0 <= m < loops@.len() && loop_key(#[trigger] unique@[j]) == loop_key(
                        #[trigger] loops@[m],
                    ) by {
                    if j < earlier.len() {
                        assert(unique@[j] == earlier[j]);
                    } else {
                        assert(loop_key(unique@[j]) == loop_key(loops@[i as int]));
                    }
                }
            }
            i += 1;
        }
        unique
    }

    /// The feedback loops of the graph that are found by following the links
    /// from each node, at most `max_length` links deep; of the loops through
    /// the same node names, only the first found is kept. Every closed path of
    /// at most `max_length + 1` nodes that starts at a node of the graph has
    /// its names among the loops returned.
    pub fn find_feedback_loops(&self, max_length: usize) -> (r: Vec<FeedbackLoop>)
        requires
            max_length < usize::MAX,
        ensures
            all_loops(self.edge_view(), loop_keys(r@), max_length),
            forall|a: int, b: int|
                0 <= a < b < r@.len() ==> !same_names(
                    (#[trigger] loop_keys(r@)[a]).0,
                    (#[trigger] loop_keys(r@)[b]).0,
                ),
            start_at_nodes(self.node_view(), loop_keys(r@)),
            covers_cycles(self.node_view(), self.edge_view(), loop_keys(r@), max_length),
    {
        let mut loops: Vec<FeedbackLoop> = Vec::new();
        let mut i: usize = 0;
        while i < self.nodes.len()
            invariant
                i <= self.nodes@.len(),
                max_length < usize::MAX,
                all_loops(self.edge_view(), loop_keys(loops@), max_length),
                start_at_nodes(self.node_view(), loop_keys(loops@)),
                forall|k: int|
                    0 <= k < i ==> holds_paths_from(
                        self.edge_view(),
                        loop_keys(loops@),
                        seq![#[trigger] self.node_view()[k]],
                        max_length,
                    ),
            decreases self.nodes@.len() - i,
        {
            let mut path: Vec<GraphNode> = Vec::new();
            let ghost earlier = loop_keys(loops@);
            let ghost stem = seq![node_key(self.nodes@[i as int])];
            assert(node_keys(path@) =~= Seq::<NodeKey>::empty());
            assert(node_keys(path@).push(node_key(self.nodes@[i as int])) =~= stem);
            self.dfs_find_loops(&self.nodes[i], &self.nodes[i], &mut path, &mut loops, max_length);
            proof {
                let later = loop_keys(loops@);
                assert(self.node_view()[i as int] == stem[0]);
                assert forall|m: int| 0 <= m < later.len() implies self.node_view().contains(
                    (#[trigger] later[m]).0[0],
                ) by {
                    if m < earlier.len() {
                        assert(later[m] == earlier[m]);
                    } else {
                        assert(starts_with(later[m].0, stem));
                        assert(later[m].0[0] == stem[0]);
                    }
                }
                assert forall|k: int| 0 <= k < i + 1 implies holds_paths_from(
                    self.edge_view(),
                    later,
                    seq![#[trigger] self.node_view()[k]],
                    max_length,
                ) by {
                    if k < i {
                        lemma_paths_still_held(
                            self.edge_view(),
                            later,
                            earlier,
                            seq![self.node_view()[k]],
                            max_length,
                        );
                    } else {
                        assert(seq![self.node_view()[k]] =~= stem);
                    }
                }
            }
            i += 1;
        }
        let r = Self::deduplicate_loops(loops);
        proof {
            let raw = loop_keys(loops@);
            let out = loop_keys(r@);
            lemma_kept_distinct(raw, loops@.len() as int);
            assert forall|k: int| 0 <= k < out.len() implies is_feedback_loop(
                self.edge_view(),
                #[trigger] out[k],
            ) && out[k].2 <= max_length + 1 && self.node_view().contains(out[k].0[0]) by {
                let m = choose|m: int|
                    0 <= m < loops@.len() && loop_key(#[trigger] r@[k]) == loop_key(
                        #[trigger] loops@[m],
                    );
                assert(raw[m] == loop_key(loops@[m]));
            }
            assert forall|p: Seq<NodeKey>|
                #![trigger is_cycle(self.edge_view(), p)]
                is_cycle(self.edge_view(), p) && p.len() <= max_length + 1
                    && self.node_view().contains(p[0]) implies passes_along(out, p) by {
                let k = choose|k: int| 0 <= k < self.node_view().len() && self.node_view()[k] == p[0];
                let stem = seq![self.node_view()[k]];
                assert(starts_with(p, stem));
                assert(holds_paths_from(self.edge_view(), raw, stem, max_length));
                let m = choose|m: int| 0 <= m < raw.len() && (#[trigger] raw[m]).0 == p;
                lemma_kept_covers(raw, raw.len() as int, m);
            }
        }
        r
    }
}

/// Whether the first node of each loop is a node of the graph.
pub open spec fn start_at_nodes(nodes: Seq<NodeKey>, loops: Seq<LoopKey>) -> bool {
    forall|k: int| 0 <= k < loops.len() ==> nodes.contains((#[trigger] loops[k]).0[0])
}

/// Whether one of the loops passes through nodes of the same names as the path.
pub open spec fn passes_along(loops: Seq<LoopKey>, path: Seq<NodeKey>) -> bool {
    exists|j: int| 0 <= j < loops.len() && same_names((#[trigger] loops[j]).0, path)
}

/// Whether every closed path of the graph of at most `max_length + 1` nodes
/// that starts at one of the nodes has its names among the loops.
pub open spec fn covers_cycles(
    nodes: Seq<NodeKey>,
    edges: Seq<EdgeKey>,
    loops: Seq<LoopKey>,
    max_length: usize,
) -> bool {
    forall|p: Seq<NodeKey>|
        #![trigger is_cycle(edges, p)]
        is_cycle(edges, p) && p.len() <= max_length + 1 && nodes.contains(p[0]) ==> passes_along(
            loops,
            p,
        )
}

/// The closed paths that loops hold are held by more loops.
pub proof fn lemma_paths_still_held(
    edges: Seq<EdgeKey>,
    later: Seq<LoopKey>,
    earlier: Seq<LoopKey>,
    stem: Seq<NodeKey>,
    max_length: usize,
)
    requires
        grown_from(later, earlier),
        holds_paths_from(edges, earlier, stem, max_length),
    ensures
        holds_paths_from(edges, later, stem, max_length),
{
    assert forall|p: Seq<NodeKey>|
        #![trigger is_cycle(edges, p)]
        is_cycle(edges, p) && starts_with(p, stem) && p.len() <= max_length + 1 implies holds_path(
        later,
        p,
    ) by {
        lemma_still_held(later, earlier, p);
    }
}

/// Each of the first `count` loops has its names among the loops kept.
pub proof fn lemma_kept_covers(loops: Seq<LoopKey>, count: int, m: int)
    requires
        0 <= m < count <= loops.len(),
    ensures
        passes_along(kept(loops, count), loops[m].0),
    decreases count,
{
    let before = kept(loops, count - 1);
    let now = kept(loops, count);
    if m < count - 1 {
        lemma_kept_covers(loops, count - 1, m);
        let j = choose|j: int| 0 <= j < before.len() && same_names((#[trigger] before[j]).0, loops[m].0);
        assert(now[j] == before[j]);
    } else if seen_among(before, loops[m]) {
        let j = choose|j: int| 0 <= j < before.len() && same_names((#[trigger] before[j]).0, loops[m].0);
        assert(now[j] == before[j]);
    } else {
        let path = loops[m].0;
        assert forall|i: int| 0 <= i < path.len() implies has_name(path, (#[trigger] path[i]).0) by {}
        assert(now.last().0 == path);
        assert(same_names(now[now.len() - 1].0, path));
    }
}

/// No two of the loops kept pass through the same names.
pub proof fn lemma_kept_distinct(loops: Seq<LoopKey>, count: int)
    ensures
        forall|a: int, b: int|
            0 <= a < b < kept(loops, count).len() ==> !same_names(
                (#[trigger] kept(loops, count)[a]).0,
                (#[trigger] kept(loops, count)[b]).0,
            ),
    decreases count,
{
    if count > 0 {
        lemma_kept_distinct(loops, count - 1);
        let before = kept(loops, count - 1);
        if !seen_among(before, loops[count - 1]) {
            let now = kept(loops, count);
            assert forall|a: int, b: int| 0 <= a < b < now.len() implies !same_names(
                (#[trigger] now[a]).0,
                (#[trigger] now[b]).0,
            ) by {
                if b < before.len() {
                    assert(now[a] == before[a] && now[b] == before[b]);
                } else {
                    assert(now[a] == before[a]);
                    assert(now[b] == loops[count - 1]);
                }
            }
        }
    }
}

/// Whether the position of a node among `nodes` is `u`.
pub open spec fn at(nodes: Seq<NodeKey>, key: NodeKey, u: int) -> bool {
    0 <= u < nodes.len() && nodes[u] == key
}

/// Whether no node stands twice among the nodes and every link joins two of them.
pub open spec fn joined_up(nodes: Seq<NodeKey>, edges: Seq<EdgeKey>) -> bool {
    &&& nodes.no_duplicates()
    &&& forall|e: int|
        0 <= e < edges.len() ==> nodes.contains((#[trigger] edges[e]).0) && nodes.contains(
            edges[e].1,
        )
}

/// Whether the start of the link stands before its end in `order`.
pub open spec fn in_order(order: Seq<NodeKey>, edge: EdgeKey) -> bool {
    exists|i: int, j: int|
        #![trigger order[i], order[j]]
        0 <= i < j < order.len() && order[i] == edge.0 && order[j] == edge.1
}

/// Whether `order` holds each of the nodes once, and the start of every link
/// before its end.
pub open spec fn is_order(nodes: Seq<NodeKey>, edges: Seq<EdgeKey>, order: Seq<NodeKey>) -> bool {
    &&& order.len() == nodes.len()
    &&& order.no_duplicates()
    &&& forall|k: int| 0 <= k < order.len() ==> nodes.contains(#[trigger] order[k])
    &&& forall|e: int| 0 <= e < edges.len() ==> in_order(order, #[trigger] edges[e])
}

/// Whether link `e` leads to node `v` from node `u`, which is marked.
pub open spec fn feeds(
    nodes: Seq<NodeKey>,
    edges: Seq<EdgeKey>,
    marked: Seq<bool>,
    v: int,
    e: int,
    u: int,
) -> bool {
    0 <= e < edges.len() && 0 <= u < nodes.len() && u < marked.len() && edges[e].1 == nodes[v]
        && edges[e].0 == nodes[u] && marked[u]
}

/// Whether a link leads to node `v` from a node that is marked.
pub open spec fn fed_from(nodes: Seq<NodeKey>, edges: Seq<EdgeKey>, marked: Seq<bool>, v: int) -> bool {
    exists|e: int, u: int| #[trigger] feeds(nodes, edges, marked, v, e, u)
}

/// Whether node `v` is marked.
pub open spec fn is_marked(marked: Seq<bool>, v: int) -> bool {
    0 <= v < marked.len() && marked[v]
}

/// Whether the marked nodes are a knot: there is one, and to each of them a
/// link leads from one of them. A graph with a knot has a circular dependency.
pub open spec fn is_knot(nodes: Seq<NodeKey>, edges: Seq<EdgeKey>, marked: Seq<bool>) -> bool {
    &&& marked.len() == nodes.len()
    &&& exists|v: int| #[trigger] is_marked(marked, v)
    &&& forall|v: int| #[trigger] is_marked(marked, v) ==> fed_from(nodes, edges, marked, v)
}

/// A graph whose nodes can be ordered has no knot.
pub proof fn lemma_order_excludes_knot(
    nodes: Seq<NodeKey>,
    edges: Seq<EdgeKey>,
    order: Seq<NodeKey>,
    marked: Seq<bool>,
)
    requires
        nodes.no_duplicates(),
        is_order(nodes, edges, order),
    ensures
        !is_knot(nodes, edges, marked),
{
    if is_knot(nodes, edges, marked) {
        let v0 = choose|v: int| #[trigger] is_marked(marked, v);
        assert(nodes.contains(nodes[v0]));
        lemma_order_covers(nodes, order, nodes[v0]);
        let p0 = choose|p: int| 0 <= p < order.len() && order[p] == nodes[v0];
        lemma_knot_descends(nodes, edges, order, marked, v0, p0);
    }
}

/// An order of the nodes holds every node.
pub proof fn lemma_order_covers(nodes: Seq<NodeKey>, order: Seq<NodeKey>, key: NodeKey)
    requires
        nodes.no_duplicates(),
        order.len() == nodes.len(),
        order.no_duplicates(),
        forall|k: int| 0 <= k < order.len() ==> nodes.contains(#[trigger] order[k]),
        nodes.contains(key),
    ensures
        order.contains(key),
{
    nodes.unique_seq_to_set();
    order.unique_seq_to_set();
    let a = order.to_set();
    let b = nodes.to_set();
    assert(a.subset_of(b)) by {
        assert forall|x: NodeKey| a.contains(x) implies b.contains(x) by {
            let k = choose|k: int| 0 <= k < order.len() && order[k] == x;
            assert(nodes.contains(order[k]));
        }
    }
    vstd::seq_lib::seq_to_set_is_finite(nodes);
    vstd::set_lib::lemma_subset_equality(a, b);
    assert(b.contains(key));
    assert(a.contains(key));
}

/// In a graph whose nodes are ordered, no node of a knot has a place in the order.
proof fn lemma_knot_descends(
    nodes: Seq<NodeKey>,
    edges: Seq<EdgeKey>,
    order: Seq<NodeKey>,
    marked: Seq<bool>,
    v: int,
    p: int,
)
    requires
        nodes.no_duplicates(),
        is_order(nodes, edges, order),
        is_knot(nodes, edges, marked),
        0 <= v < nodes.len(),
        0 <= p < order.len(),
        order[p] == nodes[v],
    ensures
        !marked[v],
    decreases p,
{
    if marked[v] {
        assert(is_marked(marked, v));
        assert(fed_from(nodes, edges, marked, v));
        let (e, u) = choose|e: int, u: int| #[trigger] feeds(nodes, edges, marked, v, e, u);
        assert(in_order(order, edges[e]));
        let (i, j) = choose|i: int, j: int|
            #![trigger order[i], order[j]]
            0 <= i < j < order.len() && order[i] == edges[e].0 && order[j] == edges[e].1;
        assert(order[j] == order[p]);
        assert(j == p);
        lemma_knot_descends(nodes, edges, order, marked, u, i);
    }
}

impl DependencyGraph {
    /// Whether no node stands twice and every link joins two nodes of the graph.
    pub open spec fn well_formed(&self) -> bool {
        joined_up(self.node_view(), self.edge_view())
    }

    /// The position of a node among the nodes.
    fn position(&self, node: &GraphNode) -> (r: Option<usize>)
        ensures
            match r {
                Some(u) => at(self.node_view(), node_key(*node), u as int),
                None => !self.node_view().contains(node_key(*node)),
            },
    {
        let mut i: usize = 0;
        while i < self.nodes.len()
            invariant
                i <= self.nodes@.len(),
                forall|k: int| 0 <= k < i ==> self.node_view()[k] != node_key(*node),
            decreases self.nodes@.len() - i,
        {
            if same_node(&self.nodes[i], node) {
                return Some(i);
            }
            i += 1;
        }
        None
    }

    /// Whether no node stands twice and every link joins two nodes of the graph.
    pub fn is_well_formed(&self) -> (r: bool)
        ensures
            r == self.well_formed(),
    {
        let ghost nodes = self.node_view();
        let mut i: usize = 0;
        while i < self.nodes.len()
            invariant
                i <= self.nodes@.len(),
                nodes == self.node_view(),
                forall|a: int, b: int| 0 <= a < b < i ==> nodes[a] != nodes[b],
            decreases self.nodes@.len() - i,
        {
            let mut j: usize = 0;
            while j < i
                invariant
                    j <= i < self.nodes@.len(),
                    nodes == self.node_view(),
                    forall|a: int| 0 <= a < j ==> nodes[a] != nodes[i as int],
                decreases i - j,
            {
                if same_node(&self.nodes[j], &self.nodes[i]) {
                    assert(nodes[j as int] == nodes[i as int]);
                    return false;
                }
                j += 1;
            }
            i += 1;
        }
        assert(nodes.no_duplicates());
        let mut e: usize = 0;
        while e < self.edges.len()
            invariant
                e <= self.edges@.len(),
                nodes == self.node_view(),
                nodes.no_duplicates(),
                forall|k: int|
                    0 <= k < e ==> nodes.contains((#[trigger] self.edge_view()[k]).0)
                        && nodes.contains(self.edge_view()[k].1),
            decreases self.edges@.len() - e,
        {
            if self.position(&self.edges[e].from).is_none() || self.position(
                &self.edges[e].to,
            ).is_none() {
                assert(self.edge_view()[e as int] == edge_key(self.edges@[e as int]));
                return false;
            }
            assert(self.edge_view()[e as int] == edge_key(self.edges@[e as int]));
            e += 1;
        }
        true
    }

    /// Whether every link into node `v` starts at a node that is placed.
    fn is_ready(&self, placed: &Vec<bool>, v: usize) -> (r: bool)
        requires
            self.well_formed(),
            placed@.len() == self.nodes@.len(),
            v < self.nodes@.len(),
        ensures
            r == forall|e: int, u: int|
                0 <= e < self.edges@.len() && (#[trigger] self.edge_view()[e]).1
                    == self.node_view()[v as int] && at(self.node_view(), self.edge_view()[e].0, u)
                    ==> #[trigger] placed@[u],
    {
        let ghost nodes = self.node_view();
        let ghost edges = self.edge_view();
        let mut e: usize = 0;
        while e < self.edges.len()
            invariant
                e <= self.edges@.len(),
                nodes == self.node_view(),
                edges == self.edge_view(),
                nodes.no_duplicates(),
                placed@.len() == self.nodes@.len(),
                v < self.nodes@.len(),
                forall|k: int, u: int|
                    0 <= k < e && (#[trigger] edges[k]).1 == nodes[v as int] && at(
                        nodes,
                        edges[k].0,
                        u,
                    ) ==> #[trigger] placed@[u],
            decreases self.edges@.len() - e,
        {
            assert(edges[e as int] == edge_key(self.edges@[e as int]));
            if same_node(&self.edges[e].to, &self.nodes[v]) {
                match self.position(&self.edges[e].from) {
                    Some(u) => {
                        if !placed[u] {
                            return false;
                        }
                    },
                    None => {},
                }
            }
            e += 1;
        }
        true
    }

    /// An order of the nodes in which the start of every link comes before its
    /// end. There is none where the links join nodes that the graph does not
    /// hold, and none where the graph has a knot, which is a circular dependency.
    pub fn topological_sort(&self) -> (r: Result<Vec<GraphNode>, String>)
        ensures
            match r {
                Ok(order) => self.well_formed() && is_order(
                    self.node_view(),
                    self.edge_view(),
                    node_keys(order@),
                ),
                Err(msg) => if !self.well_formed() {
                    msg@ == "Graph has a link between nodes it does not hold"@
                } else {
                    msg@ == "Model contains circular dependencies"@ && exists|marked: Seq<bool>|
                        is_knot(self.node_view(), self.edge_view(), marked)
                },
            },
    {
        if !self.is_well_formed() {
            return Err(String::from_str("Graph has a link between nodes it does not hold"));
        }
        let n = self.nodes.len();
        let ghost nodes = self.node_view();
        let ghost edges = self.edge_view();
        let mut placed: Vec<bool> = Vec::new();
        let mut c: usize = 0;
        while c < n
            invariant
                c <= n,
                placed@.len() == c,
                forall|k: int| 0 <= k < c ==> !placed@[k],
            decreases n - c,
        {
            placed.push(false);
            c += 1;
        }
        let mut order: Vec<usize> = Vec::new();
        while order.len() < n
            invariant
                n == self.nodes@.len(),
                nodes == self.node_view(),
                edges == self.edge_view(),
                joined_up(nodes, edges),
                placed@.len() == n,
                order@.len() <= n,
                order@.no_duplicates(),
                forall|k: int| 0 <= k < order@.len() ==> 0 <= #[trigger] order@[k] < n,
                forall|v: int| 0 <= v < n ==> (#[trigger] placed@[v] <==> order@.contains(v as usize)),
                forall|e: int, j: int|
                    0 <= e < edges.len() && 0 <= j < order@.len() && (#[trigger] edges[e]).1
                        == nodes[#[trigger] order@[j] as int] ==> exists|i: int|
                        0 <= i < j && nodes[order@[i] as int] == edges[e].0,
            decreases n - order@.len(),
        {
            let mut found: Option<usize> = None;
            let mut v: usize = 0;
            while v < n && found.is_none()
                invariant
                    v <= n,
                    n == self.nodes@.len(),
                    nodes == self.node_view(),
                    edges == self.edge_view(),
                    joined_up(nodes, edges),
                    placed@.len() == n,
                    match found {
                        Some(w) => w < n && !placed@[w as int] && forall|e: int, u: int|
                            0 <= e < edges.len() && (#[trigger] edges[e]).1 == nodes[w as int]
                                && at(nodes, edges[e].0, u) ==> #[trigger] placed@[u],
                        None => forall|w: int|
                            0 <= w < v && !#[trigger] placed@[w] ==> fed_from(
                                nodes,
                                edges,
                                Seq::new(n as nat, |k: int| !placed@[k]),
                                w,
                            ),
                    },
                decreases n - v + if found.is_none() { 1int } else { 0int },
            {
                if !placed[v] {
                    if self.is_ready(&placed, v) {
                        found = Some(v);
                    } else {
                        proof {
                            let marked = Seq::new(n as nat, |k: int| !placed@[k]);
                            let (e, u) = choose|e: int, u: int|
                                0 <= e < edges.len() && (#[trigger] edges[e]).1 == nodes[v as int]
                                    && at(nodes, edges[e].0, u) && !#[trigger] placed@[u];
                            assert(marked[u]);
                            assert(feeds(nodes, edges, marked, v as int, e, u));
                        }
                    }
                }
                if found.is_none() {
                    v += 1;
                }
            }
            match found {
                None => {
                    proof {
                        let marked = Seq::new(n as nat, |k: int| !placed@[k]);
                        assert(exists|w: int| 0 <= w < n && !placed@[w]) by {
                            lemma_some_unplaced(order@, placed@);
                        }
                        let w0 = choose|w: int| 0 <= w < n && !placed@[w];
                        assert(is_marked(marked, w0));
                        assert forall|w: int| #[trigger] is_marked(marked, w) implies fed_from(
                            nodes,
                            edges,
                            marked,
                            w,
                        ) by {
                            assert(!placed@[w]);
                        }
                        assert(is_knot(nodes, edges, marked));
                    }
                    return Err(String::from_str("Model contains circular dependencies"));
                },
                Some(w) => {
                    let ghost before = order@;
                    let ghost was = placed@;
                    placed.set(w, true);
                    order.push(w);
                    proof {
                        assert(!before.contains(w));
                        assert forall|v: int| 0 <= v < n implies (#[trigger] placed@[v]
                            <==> order@.contains(v as usize)) by {
                            if v == w {
                                assert(order@[before.len() as int] == w);
                            } else if was[v] {
                                let k = choose|k: int| 0 <= k < before.len() && before[k] == v as usize;
                                assert(order@[k] == v as usize);
                            } else if order@.contains(v as usize) {
                                let k = choose|k: int| 0 <= k < order@.len() && order@[k] == v as usize;
                                assert(before[k] == v as usize);
                            }
                        }
                        assert forall|e: int, j: int|
                            0 <= e < edges.len() && 0 <= j < order@.len() && (#[trigger] edges[e]).1
                                == nodes[#[trigger] order@[j] as int] implies exists|i: int|
                            0 <= i < j && nodes[order@[i] as int] == edges[e].0 by {
                            if j < before.len() {
                                assert(order@[j] == before[j]);
                                let i = choose|i: int|
                                    0 <= i < j && nodes[before[i] as int] == edges[e].0;
                                assert(order@[i] == before[i]);
                            } else {
                                assert(nodes.contains(edges[e].0));
                                let u = choose|u: int| 0 <= u < nodes.len() && nodes[u] == edges[e].0;
                                assert(at(nodes, edges[e].0, u));
                                assert(was[u]);
                                let i = choose|i: int| 0 <= i < before.len() && before[i] == u as usize;
                                assert(order@[i] == before[i]);
                            }
                        }
                    }
                },
            }
        }
        let mut result: Vec<GraphNode> = Vec::new();
        let mut k: usize = 0;
        while k < n
            invariant
                k <= n,
                n == self.nodes@.len(),
                order@.len() == n,
                nodes == self.node_view(),
                result@.len() == k,
                forall|m: int| 0 <= m < n ==> 0 <= #[trigger] order@[m] < n,
                forall|m: int| 0 <= m < k ==> node_key(#[trigger] result@[m]) == nodes[order@[m] as int],
            decreases n - k,
        {
            result.push(copy_node(&self.nodes[order[k]]));
            k += 1;
        }
        proof {
            let keys = node_keys(result@);
            assert forall|a: int, b: int| 0 <= a < keys.len() && 0 <= b < keys.len() && a
                != b implies keys[a] != keys[b] by {
                assert(order@[a] != order@[b]);
            }
            assert forall|m: int| 0 <= m < keys.len() implies nodes.contains(#[trigger] keys[m]) by {
                assert(nodes[order@[m] as int] == keys[m]);
            }
            assert forall|e: int| 0 <= e < edges.len() implies in_order(
                keys,
                #[trigger] edges[e],
            ) by {
                assert(nodes.contains(edges[e].1));
                let v = choose|v: int| 0 <= v < nodes.len() && nodes[v] == edges[e].1;
                assert(order@.contains(v as usize)) by {
                    lemma_all_placed(order@, n as int, v);
                }
                let j = choose|j: int| 0 <= j < order@.len() && order@[j] == v as usize;
                let i = choose|i: int| 0 <= i < j && nodes[order@[i] as int] == edges[e].0;
                assert(keys[i] == edges[e].0 && keys[j] == edges[e].1);
            }
            assert(keys.len() == nodes.len());
            assert(is_order(nodes, edges, keys));
        }
        Ok(result)
    }
}

/// Where fewer nodes are ordered than there are, one is not placed.
proof fn lemma_some_unplaced(order: Seq<usize>, placed: Seq<bool>)
    requires
        order.len() < placed.len(),
        placed.len() <= usize::MAX,
        order.no_duplicates(),
        forall|v: int| 0 <= v < placed.len() ==> (#[trigger] placed[v] <==> order.contains(v as usize)),
    ensures
        exists|w: int| 0 <= w < placed.len() && !placed[w],
{
    if forall|w: int| 0 <= w < placed.len() ==> placed[w] {
        assert forall|x: usize| (x as int) < placed.len() implies #[trigger] order.contains(x) by {
            assert(placed[x as int]);
        }
        lemma_all_needed(order, placed.len() as int);
    }
}

/// A list without repetitions that holds every number below `n` has at least `n` entries.
proof fn lemma_all_needed(order: Seq<usize>, n: int)
    requires
        0 <= n <= usize::MAX,
        order.no_duplicates(),
        forall|x: usize| (x as int) < n ==> #[trigger] order.contains(x),
    ensures
        order.len() >= n,
{
    let below = Set::new(|x: usize| 0 <= x < n);
    order.unique_seq_to_set();
    vstd::seq_lib::seq_to_set_is_finite(order);
    assert(below.subset_of(order.to_set())) by {
        assert forall|x: usize| below.contains(x) implies order.to_set().contains(x) by {
            assert(order.contains(x));
        }
    }
    lemma_below_len(n);
    vstd::set_lib::lemma_len_subset(below, order.to_set());
}

/// There are `n` numbers below `n`.
proof fn lemma_below_len(n: int)
    requires
        0 <= n,
    ensures
        Set::new(|x: usize| 0 <= x < n).finite(),
        n <= usize::MAX + 1 ==> Set::new(|x: usize| 0 <= x < n).len() == n,
        n > usize::MAX + 1 ==> Set::new(|x: usize| 0 <= x < n).len() == usize::MAX + 1,
    decreases n,
{
    let s = Set::new(|x: usize| 0 <= x < n);
    if n == 0 {
        assert(s =~= Set::<usize>::empty());
    } else {
        lemma_below_len(n - 1);
        let t = Set::new(|x: usize| 0 <= x < n - 1);
        if n <= usize::MAX + 1 {
            assert(s =~= t.insert((n - 1) as usize));
        } else {
            assert(s =~= t);
        }
    }
}

/// A list without repetitions of `n` numbers below `n` holds each of them.
proof fn lemma_all_placed(order: Seq<usize>, n: int, v: int)
    requires
        order.len() == n,
        order.no_duplicates(),
        forall|k: int| 0 <= k < order.len() ==> 0 <= #[trigger] order[k] < n,
        0 <= v < n,
        n <= usize::MAX,
    ensures
        order.contains(v as usize),
{
    let below = Set::new(|x: usize| 0 <= x < n);
    lemma_below_len(n);
    order.unique_seq_to_set();
    assert(order.to_set().subset_of(below)) by {
        assert forall|x: usize| order.to_set().contains(x) implies below.contains(x) by {
            let k = choose|k: int| 0 <= k < order.len() && order[k] == x;
        }
    }
    vstd::set_lib::lemma_subset_equality(order.to_set(), below);
    assert(below.contains(v as usize));
}

/// The tally with one more loop of the given length: the count of that length
/// grows by one, and a length that is new takes its place in rising order.
pub open spec fn bumped(tally: Seq<(usize, usize)>, length: usize) -> Seq<(usize, usize)>
    decreases tally.len(),
{
    if tally.len() == 0 {
        seq![(length, 1usize)]
    } else if tally[0].0 == length {
        seq![(length, if tally[0].1 < usize::MAX {
            (tally[0].1 + 1) as usize
        } else {
            tally[0].1
        })] + tally.drop_first()
    } else if tally[0].0 > length {
        seq![(length, 1usize)] + tally
    } else {
        seq![tally[0]] + bumped(tally.drop_first(), length)
    }
}

/// How many of the first `count` loops there are of each length, by rising length.
pub open spec fn tallied(loops: Seq<LoopKey>, count: int) -> Seq<(usize, usize)>
    decreases count,
{
    if count <= 0 {
        Seq::empty()
    } else {
        bumped(tallied(loops, count - 1), loops[count - 1].2)
    }
}

/// Of the first `count` loops, those of the given polarity.
pub open spec fn of_polarity(loops: Seq<LoopKey>, polarity: Polarity, count: int) -> Seq<LoopKey>
    decreases count,
{
    if count <= 0 {
        Seq::empty()
    } else if loops[count - 1].1 == polarity {
        of_polarity(loops, polarity, count - 1).push(loops[count - 1])
    } else {
        of_polarity(loops, polarity, count - 1)
    }
}

/// The name of a kind of element.
pub open spec fn kind_text(kind: ElementType) -> Seq<char> {
    match kind {
        ElementType::Stock => "Stock"@,
        ElementType::Flow => "Flow"@,
        ElementType::Auxiliary => "Auxiliary"@,
        ElementType::Parameter => "Parameter"@,
    }
}

/// The shape in which a kind of element is drawn.
pub open spec fn shape_text(kind: ElementType) -> Seq<char> {
    match kind {
        ElementType::Stock => "box"@,
        ElementType::Flow => "ellipse"@,
        ElementType::Auxiliary => "diamond"@,
        ElementType::Parameter => "plaintext"@,
    }
}

/// The line style in which a polarity is drawn.
pub open spec fn style_text(polarity: Polarity) -> Seq<char> {
    match polarity {
        Polarity::Positive => "solid"@,
        Polarity::Negative => "dashed"@,
        Polarity::Unknown => "dotted"@,
    }
}

/// The lines that declare the first `count` nodes.
pub open spec fn node_lines(nodes: Seq<NodeKey>, count: int) -> Seq<char>
    decreases count,
{
    if count <= 0 {
        Seq::empty()
    } else {
        node_lines(nodes, count - 1) + "  \""@ + nodes[count - 1].0 + "\" [shape="@ + shape_text(
            nodes[count - 1].1,
        ) + "];\n"@
    }
}

/// The lines that declare the first `count` links.
pub open spec fn edge_lines(edges: Seq<EdgeKey>, count: int) -> Seq<char>
    decreases count,
{
    if count <= 0 {
        Seq::empty()
    } else {
        edge_lines(edges, count - 1) + "  \""@ + edges[count - 1].0.0 + "\" -> \""@ + edges[count
            - 1].1.0 + "\" [style="@ + style_text(edges[count - 1].2) + "];\n"@
    }
}

/// The graph in the DOT language.
pub open spec fn dot_text(nodes: Seq<NodeKey>, edges: Seq<EdgeKey>) -> Seq<char> {
    "digraph Model {\n  rankdir=LR;\n  node [shape=box];\n\n"@ + node_lines(
        nodes,
        nodes.len() as int,
    ) + "\n"@ + edge_lines(edges, edges.len() as int) + "}\n"@
}

/// The lines that tell the first `count` entries of a tally.
pub open spec fn tally_lines(tally: Seq<(usize, usize)>, count: int) -> Seq<char>
    decreases count,
{
    if count <= 0 {
        Seq::empty()
    } else {
        tally_lines(tally, count - 1) + "  Length "@ + decimal_text(tally[count - 1].0 as nat)
            + ": "@ + decimal_text(tally[count - 1].1 as nat) + " loops\n"@
    }
}

/// The lines that tell the first `count` nodes of a loop.
pub open spec fn loop_node_lines(nodes: Seq<NodeKey>, count: int) -> Seq<char>
    decreases count,
{
    if count <= 0 {
        Seq::empty()
    } else {
        loop_node_lines(nodes, count - 1) + "  -> "@ + nodes[count - 1].0 + " ("@ + kind_text(
            nodes[count - 1].1,
        ) + ")\n"@
    }
}

/// The heading of a loop: an empty line, then the letter, the number of the
/// loop and its length.
pub open spec fn loop_heading(letter: Seq<char>, number: nat, length: nat) -> Seq<char> {
    "\n"@ + letter + decimal_text(number) + " (length "@ + decimal_text(length) + "):\n"@
}

/// The paragraphs that tell the first `count` of the loops, each under the
/// letter and its number.
pub open spec fn loop_paragraphs(loops: Seq<LoopKey>, letter: Seq<char>, count: int) -> Seq<char>
    decreases count,
{
    if count <= 0 {
        Seq::empty()
    } else {
        loop_paragraphs(loops, letter, count - 1) + loop_heading(
            letter,
            count as nat,
            loops[count - 1].2 as nat,
        ) + loop_node_lines(loops[count - 1].0, loops[count - 1].0.len() as int)
    }
}

/// The smaller of a number and ten.
pub open spec fn at_most_ten(n: nat) -> int {
    if n < 10 {
        n as int
    } else {
        10
    }
}

/// The report on the structure of a model.
pub open spec fn report_text(node_count: nat, edge_count: nat, loops: Seq<LoopKey>) -> Seq<char> {
    let reinforcing = of_polarity(loops, Polarity::Positive, loops.len() as int);
    let balancing = of_polarity(loops, Polarity::Negative, loops.len() as int);
    let tally = tallied(loops, loops.len() as int);
    "=== Model Structure Analysis ===\n\nNodes: "@ + decimal_text(node_count) + "\nEdges: "@
        + decimal_text(edge_count) + "\nFeedback Loops: "@ + decimal_text(loops.len())
        + "\n\nReinforcing Loops: "@ + decimal_text(reinforcing.len()) + "\nBalancing Loops: "@
        + decimal_text(balancing.len()) + "\n\nLoop Length Distribution:\n"@ + tally_lines(
        tally,
        tally.len() as int,
    ) + "\n=== Reinforcing Loops ===\n"@ + loop_paragraphs(
        reinforcing,
        "R"@,
        at_most_ten(reinforcing.len()),
    ) + "\n=== Balancing Loops ===\n"@ + loop_paragraphs(
        balancing,
        "B"@,
        at_most_ten(balancing.len()),
    )
}

fn bump(tally: Vec<(usize, usize)>, length: usize) -> (r: Vec<(usize, usize)>)
    ensures
        r@ == bumped(tally@, length),
{
    let mut r: Vec<(usize, usize)> = Vec::new();
    let mut i: usize = 0;
    let mut placed = false;
    assert(tally@.skip(0) =~= tally@);
    while i < tally.len()
        invariant
            i <= tally@.len(),
            !placed ==> r@ + bumped(tally@.skip(i as int), length) == bumped(tally@, length),
            placed ==> r@ + tally@.skip(i as int) == bumped(tally@, length),
        decreases tally@.len() - i,
    {
        let ghost rest = tally@.skip(i as int);
        proof {
            assert(rest[0] == tally@[i as int]);
            assert(rest.drop_first() =~= tally@.skip(i + 1));
        }
        let entry = tally[i];
        let ghost before = r@;
        if placed {
            r.push(entry);
            assert(r@ + tally@.skip(i + 1) =~= before + rest);
        } else if entry.0 == length {
            let count = if entry.1 < usize::MAX {
                entry.1 + 1
            } else {
                entry.1
            };
            r.push((length, count));
            placed = true;
            assert(r@ + tally@.skip(i + 1) =~= before + bumped(rest, length));
        } else if entry.0 > length {
            r.push((length, 1));
            r.push(entry);
            placed = true;
            assert(r@ + tally@.skip(i + 1) =~= before + bumped(rest, length));
        } else {
            r.push(entry);
            assert(r@ + bumped(tally@.skip(i + 1), length) =~= before + bumped(rest, length));
        }
        i += 1;
    }
    if !placed {
        let ghost before = r@;
        r.push((length, 1));
        assert(r@ =~= before + bumped(tally@.skip(i as int), length));
    } else {
        assert(r@ =~= r@ + tally@.skip(i as int));
    }
    r
}

fn kind_name(kind: ElementType) -> (r: &'static str)
    ensures
        r@ == kind_text(kind),
{
    match kind {
        ElementType::Stock => "Stock",
        ElementType::Flow => "Flow",
        ElementType::Auxiliary => "Auxiliary",
        ElementType::Parameter => "Parameter",
    }
}

fn shape_name(kind: ElementType) -> (r: &'static str)
    ensures
        r@ == shape_text(kind),
{
    match kind {
        ElementType::Stock => "box",
        ElementType::Flow => "ellipse",
        ElementType::Auxiliary => "diamond",
        ElementType::Parameter => "plaintext",
    }
}

fn style_name(polarity: Polarity) -> (r: &'static str)
    ensures
        r@ == style_text(polarity),
{
    match polarity {
        Polarity::Positive => "solid",
        Polarity::Negative => "dashed",
        Polarity::Unknown => "dotted",
    }
}

/// Adds one line for each node of a loop.
fn write_loop_nodes(report: &mut String, item: &FeedbackLoop)
    ensures
        final(report)@ == old(report)@ + loop_node_lines(
            node_keys(item.nodes@),
            item.nodes@.len() as int,
        ),
{
    let ghost opened = report@;
    let ghost nodes = node_keys(item.nodes@);
    let mut k: usize = 0;
    assert(report@ =~= opened + loop_node_lines(nodes, 0));
    while k < item.nodes.len()
        invariant
            k <= item.nodes@.len(),
            nodes == node_keys(item.nodes@),
            report@ == opened + loop_node_lines(nodes, k as int),
        decreases item.nodes@.len() - k,
    {
        report.append("  -> ");
        report.append(item.nodes[k].name.as_str());
        report.append(" (");
        report.append(kind_name(item.nodes[k].element_type));
        report.append(")\n");
        assert(nodes[k as int] == node_key(item.nodes@[k as int]));
        assert(report@ =~= opened + loop_node_lines(nodes, k + 1));
        k += 1;
    }
}

/// Adds the heading of a loop: the letter, its number and its length.
fn write_loop_heading(report: &mut String, letter: &str, number: usize, length: usize)
    requires
        number >= 1,
    ensures
        final(report)@ == old(report)@ + loop_heading(letter@, number as nat, length as nat),
{
    let ghost start = report@;
    report.append("\n");
    report.append(letter);
    let number_text = decimal_of(number);
    report.append(number_text.as_str());
    report.append(" (length ");
    let length_text = decimal_of(length);
    report.append(length_text.as_str());
    report.append("):\n");
    assert(report@ =~= start + loop_heading(letter@, number as nat, length as nat));
}

fn write_paragraphs(report: &mut String, loops: &Vec<&FeedbackLoop>, letter: &str)
    ensures
        final(report)@ == old(report)@ + loop_paragraphs(
            borrowed_keys(loops@),
            letter@,
            at_most_ten(loops@.len()),
        ),
{
    let ghost keys = borrowed_keys(loops@);
    let ghost start = report@;
    let mut i: usize = 0;
    assert(report@ =~= start + loop_paragraphs(keys, letter@, 0));
    while i < loops.len() && i < 10
        invariant
            i <= loops@.len(),
            i <= 10,
            keys == borrowed_keys(loops@),
            report@ == start + loop_paragraphs(keys, letter@, i as int),
        decreases loops@.len() - i,
    {
        let item = loops[i];
        let ghost before = loop_paragraphs(keys, letter@, i as int);
        write_loop_heading(report, letter, i + 1, item.length);
        write_loop_nodes(report, item);
        proof {
            assert(keys[i as int] == loop_key(*item));
            let heading = loop_heading(letter@, (i + 1) as nat, item.length as nat);
            let lines = loop_node_lines(node_keys(item.nodes@), item.nodes@.len() as int);
            assert(loop_paragraphs(keys, letter@, i + 1) =~= before + heading + lines);
            assert(report@ =~= start + (before + heading + lines));
        }
        i += 1;
    }
}

/// The loops behind the references, as mathematical values.
pub open spec fn borrowed_keys(loops: Seq<&FeedbackLoop>) -> Seq<LoopKey> {
    Seq::new(loops.len(), |i: int| loop_key(*loops[i]))
}

/// The structure of a model: its graph and its feedback loops.
pub struct StructureAnalyzer {
    pub graph: DependencyGraph,
    pub feedback_loops: Vec<FeedbackLoop>,
}

impl StructureAnalyzer {
    /// The graph of the model and its feedback loops of at most eleven nodes.
    pub fn new(model: &Model) -> (r: StructureAnalyzer)
        ensures
            r.graph.node_view() == model_node_keys(*model),
            r.graph.edge_view() == model_edge_keys(*model),
            all_loops(r.graph.edge_view(), loop_keys(r.feedback_loops@), 10),
    {
        let graph = DependencyGraph::from_model(model);
        let feedback_loops = graph.find_feedback_loops(10);
        StructureAnalyzer { graph, feedback_loops }
    }

    fn loops_of(&self, polarity: Polarity) -> (r: Vec<&FeedbackLoop>)
        ensures
            borrowed_keys(r@) == of_polarity(
                loop_keys(self.feedback_loops@),
                polarity,
                self.feedback_loops@.len() as int,
            ),
    {
        let ghost all = loop_keys(self.feedback_loops@);
        let mut r: Vec<&FeedbackLoop> = Vec::new();
        let mut i: usize = 0;
        assert(borrowed_keys(r@) =~= of_polarity(all, polarity, 0));
        while i < self.feedback_loops.len()
            invariant
                i <= self.feedback_loops@.len(),
                all == loop_keys(self.feedback_loops@),
                borrowed_keys(r@) == of_polarity(all, polarity, i as int),
            decreases self.feedback_loops@.len() - i,
        {
            assert(all[i as int] == loop_key(self.feedback_loops@[i as int]));
            if self.feedback_loops[i].polarity == polarity {
                let ghost before = borrowed_keys(r@);
                r.push(&self.feedback_loops[i]);
                assert(borrowed_keys(r@) =~= before.push(all[i as int]));
            }
            i += 1;
        }
        r
    }

    /// The loops in which a change comes back amplified.
    pub fn reinforcing_loops(&self) -> (r: Vec<&FeedbackLoop>)
        ensures
            borrowed_keys(r@) == of_polarity(
                loop_keys(self.feedback_loops@),
                Polarity::Positive,
                self.feedback_loops@.len() as int,
            ),
    {
        self.loops_of(Polarity::Positive)
    }

    /// The loops in which a change comes back opposed.
    pub fn balancing_loops(&self) -> (r: Vec<&FeedbackLoop>)
        ensures
            borrowed_keys(r@) == of_polarity(
                loop_keys(self.feedback_loops@),
                Polarity::Negative,
                self.feedback_loops@.len() as int,
            ),
    {
        self.loops_of(Polarity::Negative)
    }

    /// How many loops there are of each length, by rising length.
    pub fn loop_length_distribution(&self) -> (r: Vec<(usize, usize)>)
        ensures
            r@ == tallied(loop_keys(self.feedback_loops@), self.feedback_loops@.len() as int),
    {
        let ghost all = loop_keys(self.feedback_loops@);
        let mut tally: Vec<(usize, usize)> = Vec::new();
        let mut i: usize = 0;
        assert(tally@ =~= tallied(all, 0));
        while i < self.feedback_loops.len()
            invariant
                i <= self.feedback_loops@.len(),
                all == loop_keys(self.feedback_loops@),
                tally@ == tallied(all, i as int),
            decreases self.feedback_loops@.len() - i,
        {
            assert(all[i as int] == loop_key(self.feedback_loops@[i as int]));
            tally = bump(tally, self.feedback_loops[i].length);
            i += 1;
        }
        tally
    }

    /// The graph in the DOT language: a line for each node with its shape, and
    /// a line for each link with the style of its polarity.
    pub fn export_dot(&self) -> (r: String)
        ensures
            r@ == dot_text(self.graph.node_view(), self.graph.edge_view()),
    {
        let ghost nodes = self.graph.node_view();
        let ghost edges = self.graph.edge_view();
        let mut dot = String::from_str("digraph Model {\n  rankdir=LR;\n  node [shape=box];\n\n");
        let ghost head = dot@;
        let mut i: usize = 0;
        assert(dot@ =~= head + node_lines(nodes, 0));
        while i < self.graph.nodes.len()
            invariant
                i <= self.graph.nodes@.len(),
                nodes == self.graph.node_view(),
                dot@ == head + node_lines(nodes, i as int),
            decreases self.graph.nodes@.len() - i,
        {
            let node = &self.graph.nodes[i];
            dot.append("  \"");
            dot.append(node.name.as_str());
            dot.append("\" [shape=");
            dot.append(shape_name(node.element_type));
            dot.append("];\n");
            assert(nodes[i as int] == node_key(*node));
            assert(dot@ =~= head + node_lines(nodes, i + 1));
            i += 1;
        }
        dot.append("\n");
        let ghost middle = dot@;
        let mut k: usize = 0;
        assert(dot@ =~= middle + edge_lines(edges, 0));
        while k < self.graph.edges.len()
            invariant
                k <= self.graph.edges@.len(),
                edges == self.graph.edge_view(),
                dot@ == middle + edge_lines(edges, k as int),
            decreases self.graph.edges@.len() - k,
        {
            let edge = &self.graph.edges[k];
            dot.append("  \"");
            dot.append(edge.from.name.as_str());
            dot.append("\" -> \"");
            dot.append(edge.to.name.as_str());
            dot.append("\" [style=");
            dot.append(style_name(edge.polarity));
            dot.append("];\n");
            assert(edges[k as int] == edge_key(*edge));
            assert(dot@ =~= middle + edge_lines(edges, k + 1));
            k += 1;
        }
        dot.append("}\n");
        assert(dot@ =~= dot_text(nodes, edges));
        dot
    }

    /// A report in words: the numbers of nodes, links and loops, the loops by
    /// length, and the first ten reinforcing and balancing loops node by node.
    pub fn generate_report(&self) -> (r: String)
        ensures
            r@ == report_text(
                self.graph.nodes@.len(),
                self.graph.edges@.len(),
                loop_keys(self.feedback_loops@),
            ),
    {
        let reinforcing = self.reinforcing_loops();
        let balancing = self.balancing_loops();
        let tally = self.loop_length_distribution();
        let mut report = String::from_str("=== Model Structure Analysis ===\n\nNodes: ");
        report.append(decimal_of(self.graph.nodes.len()).as_str());
        report.append("\nEdges: ");
        report.append(decimal_of(self.graph.edges.len()).as_str());
        report.append("\nFeedback Loops: ");
        report.append(decimal_of(self.feedback_loops.len()).as_str());
        report.append("\n\nReinforcing Loops: ");
        report.append(decimal_of(reinforcing.len()).as_str());
        report.append("\nBalancing Loops: ");
        report.append(decimal_of(balancing.len()).as_str());
        report.append("\n\nLoop Length Distribution:\n");
        let ghost head = report@;
        let mut i: usize = 0;
        assert(report@ =~= head + tally_lines(tally@, 0));
        while i < tally.len()
            invariant
                i <= tally@.len(),
                report@ == head + tally_lines(tally@, i as int),
            decreases tally@.len() - i,
        {
            report.append("  Length ");
            report.append(decimal_of(tally[i].0).as_str());
            report.append(": ");
            report.append(decimal_of(tally[i].1).as_str());
            report.append(" loops\n");
            assert(report@ =~= head + tally_lines(tally@, i + 1));
            i += 1;
        }
        report.append("\n=== Reinforcing Loops ===\n");
        write_paragraphs(&mut report, &reinforcing, "R");
        report.append("\n=== Balancing Loops ===\n");
        write_paragraphs(&mut report, &balancing, "B");
        proof {
            assert(borrowed_keys(reinforcing@).len() == reinforcing@.len());
            assert(borrowed_keys(balancing@).len() == balancing@.len());
            assert(loop_keys(self.feedback_loops@).len() == self.feedback_loops@.len());
        }
        report
    }
}

} // verus!

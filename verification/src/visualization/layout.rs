//! The arrangement of a model as a drawing: where each element stands on a
//! grid of rows, and the edges between stocks and flows. The lengths on the
//! page are left to the user of the library.

use vstd::prelude::*;
use vstd::string::*;
use crate::model::named::{find_named, holds, labels, position_of, Named};
use crate::model::stock::Stock;
use crate::model::{Flow, Model};
use crate::number::Number;
use crate::text::{decimal_of, decimal_text};

verus! {

#[derive(Debug, Clone, Copy, PartialEq, Eq, Structural)]
pub enum NodeType {
    Stock,
    Flow,
    Auxiliary,
    Parameter,
}

#[derive(Debug, Clone, Copy, PartialEq, Eq, Structural)]
pub enum EdgeType {
    Inflow,
    Outflow,
    Dependency,
}

/// An edge of the drawing, by the identifiers of its end points.
#[derive(Debug, Clone)]
pub struct EdgeLayout {
    pub id: String,
    pub from: String,
    pub to: String,
    pub edge_type: EdgeType,
}

/// A node of the drawing on its grid.
#[derive(Debug, Clone)]
pub struct GridNode {
    pub id: String,
    pub node_type: NodeType,
    /// The layer of the node: 0 for stocks, 1 for flows, 2 for the rest.
    pub layer: usize,
    /// The row of the node, counted over all layers.
    pub row: usize,
    /// The place of the node in its row.
    pub column: usize,
    /// The number of nodes in its row.
    pub in_row: usize,
    /// The number of layers with nodes before the layer of the node.
    pub layers_before: usize,
    pub value: Option<Number>,
    pub units: Option<String>,
    pub equation: Option<String>,
}

/// An edge as a mathematical value: its number, its ends and its kind.
pub type EdgeView = (int, Seq<char>, Seq<char>, EdgeType);

/// The edges with those of the first `count` of the given flows of a stock; an
/// edge is made for each that is a flow of the model, and gets the next number.
pub open spec fn with_flows(
    flows: Seq<Flow>,
    edges: Seq<EdgeView>,
    stock: Seq<char>,
    list: Seq<String>,
    inflow: bool,
    count: int,
) -> Seq<EdgeView>
    decreases count,
{
    if count <= 0 {
        edges
    } else {
        let before = with_flows(flows, edges, stock, list, inflow, count - 1);
        let flow = list[count - 1]@;
        if !holds(flows, flow) {
            before
        } else if inflow {
            before.push((before.len() as int + 1, flow, stock, EdgeType::Inflow))
        } else {
            before.push((before.len() as int + 1, stock, flow, EdgeType::Outflow))
        }
    }
}

/// The edges of the first `count` stocks: for each stock those from its
/// inflows, then those to its outflows.
pub open spec fn edges_of(flows: Seq<Flow>, stocks: Seq<Stock>, count: int) -> Seq<EdgeView>
    decreases count,
{
    if count <= 0 {
        Seq::empty()
    } else {
        let stock = stocks[count - 1];
        let with_in = with_flows(
            flows,
            edges_of(flows, stocks, count - 1),
            stock.name@,
            stock.inflows@,
            true,
            stock.inflows@.len() as int,
        );
        with_flows(flows, with_in, stock.name@, stock.outflows@, false, stock.outflows@.len() as int)
    }
}

/// Whether the edge is the one of the given number, ends and kind; its
/// identifier is `edge_` and the number.
pub open spec fn is_edge(e: EdgeLayout, v: EdgeView) -> bool {
    e.id@ == "edge_"@ + decimal_text(v.0 as nat) && e.from@ == v.1 && e.to@ == v.2 && e.edge_type
        == v.3
}

/// Whether the edges are the given ones, in order.
pub open spec fn are_edges(edges: Seq<EdgeLayout>, views: Seq<EdgeView>) -> bool {
    edges.len() == views.len() && forall|k: int|
        0 <= k < edges.len() ==> is_edge(#[trigger] edges[k], views[k])
}

fn add_edges(edges: &mut Vec<EdgeLayout>, flows: &Vec<Flow>, stock: &String, list: &Vec<String>, inflow: bool)
    requires
        old(edges)@.len() + list@.len() <= usize::MAX,
    ensures
        forall|views: Seq<EdgeView>|
            are_edges(old(edges)@, views) ==> are_edges(
                final(edges)@,
                with_flows(flows@, views, stock@, list@, inflow, list@.len() as int),
            ),
        final(edges)@.len() <= old(edges)@.len() + list@.len(),
{
    let mut k: usize = 0;
    while k < list.len()
        invariant
            k <= list@.len(),
            old(edges)@.len() + list@.len() <= usize::MAX,
            edges@.len() <= old(edges)@.len() + k,
            forall|views: Seq<EdgeView>|
                are_edges(old(edges)@, views) ==> are_edges(
                    edges@,
                    with_flows(flows@, views, stock@, list@, inflow, k as int),
                ),
        decreases list@.len() - k,
    {
        let ghost before = edges@;
        if find_named(flows, list[k].as_str()).is_some() {
            let mut id = String::from_str("edge_");
            id.append(decimal_of(edges.len() + 1).as_str());
            let edge = if inflow {
                EdgeLayout { id, from: list[k].clone(), to: stock.clone(), edge_type: EdgeType::Inflow }
            } else {
                EdgeLayout { id, from: stock.clone(), to: list[k].clone(), edge_type: EdgeType::Outflow }
            };
            edges.push(edge);
            assert forall|views: Seq<EdgeView>| are_edges(old(edges)@, views) implies are_edges(
                edges@,
                with_flows(flows@, views, stock@, list@, inflow, k + 1),
            ) by {
                let earlier = with_flows(flows@, views, stock@, list@, inflow, k as int);
                let now = with_flows(flows@, views, stock@, list@, inflow, k + 1);
                assert(are_edges(before, earlier));
                assert forall|j: int| 0 <= j < edges@.len() implies is_edge(
                    #[trigger] edges@[j],
                    now[j],
                ) by {
                    if j < before.len() {
                        assert(edges@[j] == before[j]);
                        assert(is_edge(before[j], earlier[j]));
                    }
                }
            }
        }
        k += 1;
    }
}

/// Whether the model has few enough flows named by its stocks for its edges
/// to be numbered.
pub open spec fn edges_fit(stocks: Seq<Stock>, count: int) -> bool
    decreases count,
{
    if count <= 0 {
        true
    } else {
        edges_fit(stocks, count - 1) && named_count(stocks, count) <= usize::MAX
    }
}

/// The number of flows that the first `count` stocks name.
pub open spec fn named_count(stocks: Seq<Stock>, count: int) -> int
    decreases count,
{
    if count <= 0 {
        0
    } else {
        named_count(stocks, count - 1) + stocks[count - 1].inflows@.len() + stocks[count
            - 1].outflows@.len()
    }
}

/// The number of rows that `n` nodes take at `per_row` nodes a row.
pub open spec fn rows_for(n: int, per_row: int) -> int {
    if n <= 0 || per_row <= 0 {
        0
    } else {
        (n + per_row - 1) / per_row
    }
}

/// Whether the node is the one at place `i` of a layer of `n` nodes that
/// starts at row `first_row` and has `layers_before` layers with nodes before it.
pub open spec fn is_placed(
    node: GridNode,
    layer: int,
    i: int,
    n: int,
    per_row: int,
    first_row: int,
    layers_before: int,
) -> bool {
    &&& node.layer == layer
    &&& node.row == first_row + i / per_row
    &&& node.column == i % per_row
    &&& node.in_row == if (i / per_row + 1) * per_row <= n {
        per_row
    } else {
        n - (i / per_row) * per_row
    }
    &&& node.layers_before == layers_before
}

/// Whether the nodes from place `offset` on are those of a layer with the
/// given names, each of its kind and at its place.
pub open spec fn layer_placed(
    model: Model,
    nodes: Seq<GridNode>,
    offset: int,
    names: Seq<Seq<char>>,
    layer: int,
    per_row: int,
    first_row: int,
    layers_before: int,
) -> bool {
    &&& 0 <= offset
    &&& offset + names.len() <= nodes.len()
    &&& forall|i: int|
        0 <= i < names.len() ==> {
            let node = #[trigger] nodes[offset + i];
            &&& node.id@ == names[i]
            &&& node.node_type == kind_of(model, names[i])
            &&& is_placed(node, layer, i, names.len() as int, per_row, first_row, layers_before)
        }
}

/// The texts of the strings.
pub open spec fn texts_of(v: Seq<String>) -> Seq<Seq<char>> {
    Seq::new(v.len(), |i: int| v[i]@)
}

/// A layer stays placed when nodes are added after it.
pub proof fn lemma_layer_stays(
    model: Model,
    before: Seq<GridNode>,
    after: Seq<GridNode>,
    offset: int,
    names: Seq<Seq<char>>,
    layer: int,
    per_row: int,
    first_row: int,
    layers_before: int,
)
    requires
        layer_placed(model, before, offset, names, layer, per_row, first_row, layers_before),
        before.len() <= after.len(),
        after.take(before.len() as int) == before,
    ensures
        layer_placed(model, after, offset, names, layer, per_row, first_row, layers_before),
{
    assert forall|i: int| 0 <= i < names.len() implies {
        let node = #[trigger] after[offset + i];
        &&& node.id@ == names[i]
        &&& node.node_type == kind_of(model, names[i])
        &&& is_placed(node, layer, i, names.len() as int, per_row, first_row, layers_before)
    } by {
        assert(after.take(before.len() as int)[offset + i] == after[offset + i]);
        assert(before[offset + i] == after[offset + i]);
    }
}

/// The kind of the element called `name`: a stock where a stock has the name,
/// else a flow, else an auxiliary, else a parameter.
pub open spec fn kind_of(model: Model, name: Seq<char>) -> NodeType {
    if holds(model.stock_list(), name) {
        NodeType::Stock
    } else if holds(model.flow_list(), name) {
        NodeType::Flow
    } else if holds(model.auxiliary_list(), name) {
        NodeType::Auxiliary
    } else {
        NodeType::Parameter
    }
}

/// Lays models out.
#[derive(Debug, Clone, Copy)]
pub struct LayoutEngine;

impl LayoutEngine {
    /// The edges of the drawing: for each stock, one from each of its inflows
    /// and one to each of its outflows that is a flow of the model, numbered
    /// from one in that order.
    pub fn layout_edges(model: &Model) -> (r: Vec<EdgeLayout>)
        requires
            named_count(model.stock_list(), model.stock_list().len() as int) <= usize::MAX,
        ensures
            are_edges(
                r@,
                edges_of(model.flow_list(), model.stock_list(), model.stock_list().len() as int),
            ),
    {
        let stocks = model.stocks();
        let mut edges: Vec<EdgeLayout> = Vec::new();
        let mut i: usize = 0;
        while i < stocks.len()
            invariant
                i <= stocks@.len(),
                stocks@ == model.stock_list(),
                named_count(stocks@, stocks@.len() as int) <= usize::MAX,
                edges@.len() <= named_count(stocks@, i as int),
                are_edges(edges@, edges_of(model.flow_list(), stocks@, i as int)),
            decreases stocks@.len() - i,
        {
            proof {
                lemma_named_count_grows(stocks@, i + 1, stocks@.len() as int);
            }
            let ghost views = edges_of(model.flow_list(), stocks@, i as int);
            add_edges(&mut edges, model.flows(), &stocks[i].name, &stocks[i].inflows, true);
            add_edges(&mut edges, model.flows(), &stocks[i].name, &stocks[i].outflows, false);
            i += 1;
        }
        edges
    }

    /// The node of the element called `name` at place `i` of its layer.
    fn node_for(
        model: &Model,
        name: &String,
        layer: usize,
        i: usize,
        n: usize,
        per_row: usize,
        first_row: usize,
        layers_before: usize,
    ) -> (r: GridNode)
        requires
            per_row >= 1,
            i < n,
            first_row + n <= usize::MAX,
        ensures
            r.id@ == name@,
            r.node_type == kind_of(*model, name@),
            is_placed(r, layer as int, i as int, n as int, per_row as int, first_row as int, layers_before as int),
    {
        let row = i / per_row;
        let column = i % per_row;
        proof {
            assert(row * per_row <= i) by (nonlinear_arith)
                requires
                    row == i / per_row,
                    per_row >= 1,
                    i >= 0,
            ;
            assert(row <= i) by (nonlinear_arith)
                requires
                    row * per_row <= i,
                    per_row >= 1,
                    row >= 0,
            ;
            assert((row + 1) * per_row == row * per_row + per_row) by (nonlinear_arith);
        }
        let in_row = if n - row * per_row >= per_row {
            per_row
        } else {
            n - row * per_row
        };
        let (node_type, value, units, equation) = if let Some(k) = find_named(
            model.stocks(),
            name.as_str(),
        ) {
            (NodeType::Stock, None, copy_text(&model.stocks()[k].units), None)
        } else if let Some(k) = find_named(model.flows(), name.as_str()) {
            (
                NodeType::Flow,
                None,
                copy_text(&model.flows()[k].units),
                Some(model.flows()[k].equation.to_string()),
            )
        } else if let Some(k) = find_named(model.auxiliaries(), name.as_str()) {
            (
                NodeType::Auxiliary,
                None,
                copy_text(&model.auxiliaries()[k].units),
                Some(model.auxiliaries()[k].equation.to_string()),
            )
        } else if let Some(k) = find_named(model.parameters(), name.as_str()) {
            (
                NodeType::Parameter,
                Some(model.parameters()[k].value),
                copy_text(&model.parameters()[k].units),
                None,
            )
        } else {
            (NodeType::Parameter, None, None, None)
        };
        GridNode {
            id: name.clone(),
            node_type,
            layer,
            row: first_row + row,
            column,
            in_row,
            layers_before,
            value,
            units,
            equation,
        }
    }

    /// The nodes of one layer, row by row.
    fn place_layer(
        model: &Model,
        nodes: &mut Vec<GridNode>,
        names: &Vec<String>,
        layer: usize,
        per_row: usize,
        first_row: usize,
        layers_before: usize,
    )
        requires
            per_row >= 1,
            first_row + names@.len() <= usize::MAX,
        ensures
            final(nodes)@.len() == old(nodes)@.len() + names@.len(),
            final(nodes)@.take(old(nodes)@.len() as int) == old(nodes)@,
            layer_placed(
                *model,
                final(nodes)@,
                old(nodes)@.len() as int,
                texts_of(names@),
                layer as int,
                per_row as int,
                first_row as int,
                layers_before as int,
            ),
    {
        let ghost start = nodes@;
        let n = names.len();
        let mut i: usize = 0;
        while i < n
            invariant
                i <= n,
                n == names@.len(),
                per_row >= 1,
                first_row + n <= usize::MAX,
                nodes@.len() == start.len() + i,
                nodes@.take(start.len() as int) == start,
                forall|k: int|
                    0 <= k < i ==> {
                        let node = #[trigger] nodes@[start.len() + k];
                        &&& node.id@ == names@[k]@
                        &&& node.node_type == kind_of(*model, names@[k]@)
                        &&& is_placed(
                            node,
                            layer as int,
                            k,
                            n as int,
                            per_row as int,
                            first_row as int,
                            layers_before as int,
                        )
                    },
            decreases n - i,
        {
            let ghost before = nodes@;
            let node = Self::node_for(model, &names[i], layer, i, n, per_row, first_row, layers_before);
            nodes.push(node);
            assert(nodes@.take(start.len() as int) =~= before.take(start.len() as int));
            assert forall|k: int| 0 <= k < i implies #[trigger] nodes@[start.len() + k]
                == before[start.len() + k] by {}
            i += 1;
        }
        assert(texts_of(names@).len() == n);
    }

    /// The names of the items, in order.
    fn names_of<T: Named>(items: &Vec<T>, into: &mut Vec<String>)
        ensures
            texts_of(final(into)@) == texts_of(old(into)@) + labels(items@),
    {
        let ghost start = texts_of(into@);
        let mut i: usize = 0;
        assert(texts_of(into@) =~= start + labels(items@).take(0));
        while i < items.len()
            invariant
                i <= items@.len(),
                texts_of(into@) == start + labels(items@).take(i as int),
            decreases items@.len() - i,
        {
            let ghost before = texts_of(into@);
            into.push(items[i].name_ref().clone());
            assert(texts_of(into@) =~= before.push(items@[i as int].label()));
            assert(labels(items@).take(i + 1) =~= labels(items@).take(i as int).push(
                items@[i as int].label(),
            ));
            assert(texts_of(into@) =~= start + labels(items@).take(i + 1));
            i += 1;
        }
        assert(labels(items@).take(items@.len() as int) =~= labels(items@));
    }

    /// The nodes of the drawing on their grid, at most `per_row` in a row: the
    /// stocks first, then the flows, then the auxiliaries and the parameters,
    /// each of the three layers starting a new row.
    pub fn hierarchical_grid(model: &Model, per_row: usize) -> (r: Vec<GridNode>)
        requires
            per_row >= 1,
            model.stock_list().len() + model.flow_list().len() + model.auxiliary_list().len()
                + model.parameter_list().len() <= usize::MAX,
        ensures
            ({
                let stocks = labels(model.stock_list());
                let flows = labels(model.flow_list());
                let rest = labels(model.auxiliary_list()) + labels(model.parameter_list());
                let p = per_row as int;
                let gap_b = if stocks.len() > 0 {
                    1int
                } else {
                    0int
                };
                let gap_c = gap_b + if flows.len() > 0 {
                    1int
                } else {
                    0int
                };
                &&& r@.len() == stocks.len() + flows.len() + rest.len()
                &&& layer_placed(*model, r@, 0, stocks, 0, p, 0, 0)
                &&& layer_placed(
                    *model,
                    r@,
                    stocks.len() as int,
                    flows,
                    1,
                    p,
                    rows_for(stocks.len() as int, p),
                    gap_b,
                )
                &&& layer_placed(
                    *model,
                    r@,
                    stocks.len() as int + flows.len() as int,
                    rest,
                    2,
                    p,
                    rows_for(stocks.len() as int, p) + rows_for(flows.len() as int, p),
                    gap_c,
                )
            }),
    {
        let mut stocks: Vec<String> = Vec::new();
        Self::names_of(model.stocks(), &mut stocks);
        let mut flows: Vec<String> = Vec::new();
        Self::names_of(model.flows(), &mut flows);
        let mut rest: Vec<String> = Vec::new();
        Self::names_of(model.auxiliaries(), &mut rest);
        Self::names_of(model.parameters(), &mut rest);
        proof {
            assert(texts_of(Seq::<String>::empty()) =~= Seq::<Seq<char>>::empty());
            assert(texts_of(stocks@) =~= labels(model.stock_list()));
            assert(texts_of(flows@) =~= labels(model.flow_list()));
            assert(texts_of(rest@) =~= labels(model.auxiliary_list()) + labels(
                model.parameter_list(),
            ));
            assert(texts_of(stocks@).len() == stocks@.len());
            assert(texts_of(flows@).len() == flows@.len());
            assert(texts_of(rest@).len() == rest@.len());
        }
        let a = stocks.len();
        let b = flows.len();
        let rows_a = Self::rows(a, per_row);
        let rows_b = Self::rows(b, per_row);
        let gap_b: usize = if a > 0 {
            1
        } else {
            0
        };
        let gap_c: usize = if b > 0 {
            gap_b + 1
        } else {
            gap_b
        };
        let mut nodes: Vec<GridNode> = Vec::new();
        Self::place_layer(model, &mut nodes, &stocks, 0, per_row, 0, 0);
        let ghost first = nodes@;
        Self::place_layer(model, &mut nodes, &flows, 1, per_row, rows_a, gap_b);
        let ghost second = nodes@;
        Self::place_layer(model, &mut nodes, &rest, 2, per_row, rows_a + rows_b, gap_c);
        proof {
            let p = per_row as int;
            lemma_layer_stays(*model, first, second, 0, texts_of(stocks@), 0, p, 0, 0);
            lemma_layer_stays(*model, second, nodes@, 0, texts_of(stocks@), 0, p, 0, 0);
            lemma_layer_stays(
                *model,
                second,
                nodes@,
                a as int,
                texts_of(flows@),
                1,
                p,
                rows_a as int,
                gap_b as int,
            );
        }
        nodes
    }

    /// The number of rows that `n` nodes take.
    fn rows(n: usize, per_row: usize) -> (r: usize)
        requires
            per_row >= 1,
        ensures
            r == rows_for(n as int, per_row as int),
            r <= n,
    {
        if n == 0 {
            0
        } else {
            let r = (n - 1) / per_row + 1;
            proof {
                assert((n + per_row - 1) / (per_row as int) == (n - 1) / (per_row as int) + 1)
                    by (nonlinear_arith)
                    requires
                        per_row >= 1,
                        n >= 1,
                ;
                assert((n - 1) / (per_row as int) <= n - 1) by (nonlinear_arith)
                    requires
                        per_row >= 1,
                        n >= 1,
                ;
            }
            r
        }
    }
}

fn copy_text(text: &Option<String>) -> (r: Option<String>)
    ensures
        r == *text,
{
    match text {
        Some(s) => Some(s.clone()),
        None => None,
    }
}

/// The count of named flows does not fall as more stocks are counted.
pub proof fn lemma_named_count_grows(stocks: Seq<Stock>, a: int, b: int)
    requires
        0 <= a <= b,
    ensures
        0 <= named_count(stocks, a) <= named_count(stocks, b),
    decreases b,
{
    if a < b {
        lemma_named_count_grows(stocks, a, b - 1);
    } else if a > 0 {
        lemma_named_count_grows(stocks, a - 1, a - 1);
    }
}

} // verus!

use rsedsim::model::{Flow, Model, Parameter, Stock};
use rsedsim::number::Number;
use rsedsim::visualization::layout::{EdgeType, LayoutEngine, NodeType};
use rsedsim::visualization::graph::{
    build_graph_from_model, try_build_graph_from_model, DependencyGraph, GraphEdgeType, GraphNodeType,
};

#[test]
fn graph_grows_by_nodes_and_edges() {
    let mut graph = DependencyGraph::new();
    assert_eq!(graph.node_count(), 0);
    assert_eq!(graph.add_node("a".to_string(), GraphNodeType::Stock), 0);
    assert_eq!(graph.add_node("b".to_string(), GraphNodeType::Flow), 1);
    assert_eq!(graph.add_node("a".to_string(), GraphNodeType::Parameter), 2);
    assert_eq!(graph.node_count(), 3);
    assert_eq!(graph.get_node_index("a"), Some(2));
    assert_eq!(graph.get_node_index("b"), Some(1));
    assert_eq!(graph.get_node_index("c"), None);
    graph.add_edge("b", "a", GraphEdgeType::Inflow);
    assert_eq!(graph.edge_count(), 1);
    graph.add_edge("b", "missing", GraphEdgeType::Dependency);
    assert_eq!(graph.edge_count(), 1);
    graph.add_edge("a", "a", GraphEdgeType::Outflow);
    assert_eq!(graph.edge_count(), 2);
}

#[test]
fn graph_of_a_model() {
    let mut model = Model::new("m");
    model
        .add_stock(
            Stock::new("Population", "100")
                .with_inflows(vec!["births".to_string(), "ghosts".to_string()])
                .with_outflows(vec!["deaths".to_string()]),
        )
        .unwrap();
    model.add_flow(Flow::new("births", "Population * rate")).unwrap();
    model.add_flow(Flow::new("deaths", "Population / 80")).unwrap();
    model.add_parameter(Parameter::new("rate", Number::one())).unwrap();
    let graph = build_graph_from_model(&model);
    assert_eq!(graph.node_count(), 4);
    assert_eq!(graph.edge_count(), 2);
    assert_eq!(graph.get_node_index("Population"), Some(0));
    assert_eq!(graph.get_node_index("deaths"), Some(2));
    assert_eq!(graph.get_node_index("rate"), Some(3));
    let checked = try_build_graph_from_model(&model).unwrap();
    assert_eq!(checked.node_count(), 4);
    assert_eq!(checked.edge_count(), 2);
}

#[test]
fn layout_puts_nodes_in_rows() {
    let mut model = Model::new("m");
    for name in ["S1", "S2", "S3", "S4"] {
        model.add_stock(Stock::new(name, "1").with_inflows(vec!["f1".to_string(), "nothing".to_string()])).unwrap();
    }
    model.add_flow(Flow::new("f1", "S1 + 1")).unwrap();
    model.add_parameter(Parameter::new("p", Number::one())).unwrap();
    model.add_parameter(Parameter::new("S1", Number::one())).unwrap();
    let grid = LayoutEngine::hierarchical_grid(&model, 3);
    let places: Vec<(String, usize, usize, usize, usize, usize)> =
        grid.iter().map(|n| (n.id.clone(), n.layer, n.row, n.column, n.in_row, n.layers_before)).collect();
    let expect = |id: &str, layer, row, column, in_row, before| (id.to_string(), layer, row, column, in_row, before);
    assert_eq!(
        places,
        vec![
            expect("S1", 0, 0, 0, 3, 0),
            expect("S2", 0, 0, 1, 3, 0),
            expect("S3", 0, 0, 2, 3, 0),
            expect("S4", 0, 1, 0, 1, 0),
            expect("f1", 1, 2, 0, 1, 1),
            expect("p", 2, 3, 0, 2, 2),
            expect("S1", 2, 3, 1, 2, 2),
        ]
    );
    assert_eq!(grid[6].node_type, NodeType::Stock);
    assert_eq!(grid[5].node_type, NodeType::Parameter);
    assert_eq!(grid[5].value, Some(Number::one()));
    assert_eq!(grid[4].equation.as_deref(), Some("(S1 + 1)"));
    let edges = LayoutEngine::layout_edges(&model);
    assert_eq!(edges.len(), 4);
    assert_eq!(edges[0].id, "edge_1");
    assert_eq!(edges[3].id, "edge_4");
    assert_eq!(edges[2].from, "f1");
    assert_eq!(edges[2].to, "S3");
    assert_eq!(edges[2].edge_type, EdgeType::Inflow);
    assert!(LayoutEngine::hierarchical_grid(&Model::new("e"), 3).is_empty());
}

use rsedsim::analysis::structure::{
    DependencyGraph, ElementType, GraphNode, Polarity, StructureAnalyzer,
};
use rsedsim::model::auxiliary::Auxiliary;
use rsedsim::model::expression::Expression;
use rsedsim::model::{Flow, Model, Parameter, Stock};
use rsedsim::number::Number;

fn num(x: f64) -> Number {
    Number::from_bits(x.to_bits())
}

fn node(name: &str, kind: ElementType) -> GraphNode {
    GraphNode::new(name.to_string(), kind)
}

#[test]
fn test_dependency_graph() {
    let mut model = Model::new("Test");

    model.add_stock(Stock::new("Population", "100")).unwrap();
    model.add_parameter(Parameter::new("growth_rate", num(0.1))).unwrap();
    model.add_flow(Flow::new("births", "Population * growth_rate")).unwrap();

    let graph = DependencyGraph::from_model(&model);

    assert!(graph.nodes.len() >= 3);
    assert!(!graph.edges.is_empty());
    assert_eq!(graph.nodes.len(), 3);
    assert_eq!(graph.edges.len(), 2);
    assert_eq!(graph.edges[0].from, node("births", ElementType::Flow));
    assert_eq!(graph.edges[0].to, node("Population", ElementType::Stock));
    assert_eq!(graph.edges[1].to, node("growth_rate", ElementType::Parameter));
    assert_eq!(graph.edges[0].polarity, Polarity::Unknown);
}

#[test]
fn test_feedback_loop_detection() {
    let mut model = Model::new("Test");

    // Create simple feedback loop: Population -> births -> Population
    let mut stock = Stock::new("Population", "100");
    stock.inflows.push("births".to_string());
    model.add_stock(stock).unwrap();

    model.add_parameter(Parameter::new("growth_rate", num(0.1))).unwrap();
    model.add_flow(Flow::new("births", "Population * growth_rate")).unwrap();

    let analyzer = StructureAnalyzer::new(&model);

    println!("Found {} feedback loops", analyzer.feedback_loops.len());
    assert_eq!(analyzer.feedback_loops.len(), 0);
    assert_eq!(analyzer.reinforcing_loops().len(), 0);
    assert_eq!(analyzer.balancing_loops().len(), 0);
    assert!(analyzer.loop_length_distribution().is_empty());
}

#[test]
fn loops_are_tallied_by_length() {
    let mut graph = DependencyGraph::new();
    for name in ["a", "b", "c", "d", "e"] {
        graph.add_node(node(name, ElementType::Auxiliary));
    }
    let link = |graph: &mut DependencyGraph, from: &str, to: &str, p: Polarity| {
        graph.add_edge(node(from, ElementType::Auxiliary), node(to, ElementType::Auxiliary), p);
    };
    link(&mut graph, "a", "b", Polarity::Positive);
    link(&mut graph, "b", "a", Polarity::Positive);
    link(&mut graph, "c", "d", Polarity::Negative);
    link(&mut graph, "d", "e", Polarity::Positive);
    link(&mut graph, "e", "c", Polarity::Positive);
    link(&mut graph, "d", "c", Polarity::Positive);
    let feedback_loops = graph.find_feedback_loops(10);
    let analyzer = StructureAnalyzer { graph, feedback_loops };
    assert_eq!(analyzer.feedback_loops.len(), 3);
    assert_eq!(analyzer.loop_length_distribution(), vec![(2, 2), (3, 1)]);
    assert_eq!(analyzer.reinforcing_loops().len(), 1);
    assert_eq!(analyzer.balancing_loops().len(), 2);
    let report = analyzer.generate_report();
    assert!(report.contains("Feedback Loops: 3\n\nReinforcing Loops: 1\nBalancing Loops: 2\n\n"), "{}", report);
    assert!(report.contains("Loop Length Distribution:\n  Length 2: 2 loops\n  Length 3: 1 loops\n"), "{}", report);
    assert!(report.contains("\nR1 (length 2):\n  -> a (Auxiliary)\n  -> b (Auxiliary)\n"), "{}", report);
    assert!(report.contains("\nB1 (length 3):\n  -> c (Auxiliary)\n  -> d (Auxiliary)\n  -> e (Auxiliary)\n"), "{}", report);
    assert!(report.contains("\nB2 (length 2):\n"), "{}", report);
}

#[test]
fn dependencies_are_named_once() {
    let e = Expression::parse("a + b * a - MAX(c, b, d[x]) + (IF e > 1 THEN a ELSE f)").unwrap();
    assert_eq!(DependencyGraph::extract_dependencies(&e), vec!["a", "b", "c", "d", "e", "f"]);
    let constant = Expression::parse("42").unwrap();
    assert!(DependencyGraph::extract_dependencies(&constant).is_empty());
}

#[test]
fn graph_nodes_and_neighbours() {
    let mut graph = DependencyGraph::new();
    graph.add_node(node("a", ElementType::Stock));
    graph.add_node(node("a", ElementType::Stock));
    graph.add_node(node("a", ElementType::Flow));
    graph.add_node(node("b", ElementType::Auxiliary));
    assert_eq!(graph.nodes.len(), 3);
    assert_eq!(graph.find_node("a"), Some(node("a", ElementType::Stock)));
    assert_eq!(graph.find_node("c"), None);
    graph.add_edge(node("a", ElementType::Stock), node("b", ElementType::Auxiliary), Polarity::Positive);
    graph.add_edge(node("b", ElementType::Auxiliary), node("a", ElementType::Flow), Polarity::Negative);
    graph.add_edge(node("a", ElementType::Stock), node("a", ElementType::Flow), Polarity::Unknown);
    assert_eq!(
        graph.neighbors(&node("a", ElementType::Stock)),
        vec![node("b", ElementType::Auxiliary), node("a", ElementType::Flow)]
    );
    assert!(graph.neighbors(&node("a", ElementType::Flow)).is_empty());
    assert!(graph.is_well_formed());
}

fn ring(polarities: &[Polarity]) -> DependencyGraph {
    let mut graph = DependencyGraph::new();
    let names: Vec<String> = (0..polarities.len()).map(|i| format!("n{}", i)).collect();
    for name in &names {
        graph.add_node(node(name, ElementType::Auxiliary));
    }
    for (i, &p) in polarities.iter().enumerate() {
        let next = (i + 1) % names.len();
        graph.add_edge(node(&names[i], ElementType::Auxiliary), node(&names[next], ElementType::Auxiliary), p);
    }
    graph
}

#[test]
fn loops_have_polarity() {
    let graph = ring(&[Polarity::Positive, Polarity::Negative, Polarity::Negative]);
    let loops = graph.find_feedback_loops(10);
    assert_eq!(loops.len(), 1);
    assert_eq!(loops[0].length, 3);
    assert!(loops[0].is_reinforcing());
    let graph = ring(&[Polarity::Positive, Polarity::Negative]);
    let loops = graph.find_feedback_loops(10);
    assert_eq!(loops.len(), 1);
    assert!(loops[0].is_balancing());
    assert_eq!(graph.calculate_loop_polarity(&loops[0].nodes), Polarity::Negative);
    let graph = ring(&[Polarity::Positive, Polarity::Positive, Polarity::Positive, Polarity::Positive]);
    assert_eq!(graph.find_feedback_loops(2).len(), 0);
    assert_eq!(graph.find_feedback_loops(3).len(), 1);
}

#[test]
fn order_or_knot() {
    let mut graph = DependencyGraph::new();
    for name in ["c", "b", "a"] {
        graph.add_node(node(name, ElementType::Auxiliary));
    }
    graph.add_edge(node("a", ElementType::Auxiliary), node("b", ElementType::Auxiliary), Polarity::Unknown);
    graph.add_edge(node("b", ElementType::Auxiliary), node("c", ElementType::Auxiliary), Polarity::Unknown);
    let order = graph.topological_sort().unwrap();
    let names: Vec<&str> = order.iter().map(|n| n.name.as_str()).collect();
    assert_eq!(names, vec!["a", "b", "c"]);
    graph.add_edge(node("c", ElementType::Auxiliary), node("a", ElementType::Auxiliary), Polarity::Unknown);
    assert_eq!(graph.topological_sort().unwrap_err(), "Model contains circular dependencies");
    let mut dangling = DependencyGraph::new();
    dangling.add_node(node("a", ElementType::Stock));
    dangling.add_edge(node("a", ElementType::Stock), node("x", ElementType::Flow), Polarity::Unknown);
    assert!(!dangling.is_well_formed());
    assert_eq!(dangling.topological_sort().unwrap_err(), "Graph has a link between nodes it does not hold");
    assert!(DependencyGraph::new().topological_sort().unwrap().is_empty());
}

#[test]
fn report_and_dot() {
    let mut model = Model::new("Test");
    model.add_stock(Stock::new("S", "1").with_inflows(vec!["f".to_string()]).with_outflows(vec!["g".to_string()])).unwrap();
    model.add_flow(Flow::new("f", "S * k")).unwrap();
    model.add_flow(Flow::new("g", "h")).unwrap();
    model.add_auxiliary(Auxiliary::new("h", "S / 2")).unwrap();
    model.add_parameter(Parameter::new("k", num(2.0))).unwrap();
    let analyzer = StructureAnalyzer::new(&model);
    let dot = analyzer.export_dot();
    assert!(dot.starts_with("digraph Model {\n  rankdir=LR;\n  node [shape=box];\n\n  \"S\" [shape=box];\n  \"f\" [shape=ellipse];\n"));
    assert!(dot.contains("  \"h\" [shape=diamond];\n  \"k\" [shape=plaintext];\n\n"));
    assert!(dot.contains("  \"f\" -> \"S\" [style=dotted];\n"));
    assert!(dot.contains("  \"f\" -> \"S\" [style=solid];\n"));
    assert!(dot.contains("  \"g\" -> \"S\" [style=dashed];\n"));
    assert!(dot.ends_with("}\n"));
    let report = analyzer.generate_report();
    assert!(report.starts_with("=== Model Structure Analysis ===\n\nNodes: 5\nEdges: 6\nFeedback Loops: "), "{}", report);
    assert_eq!(
        report,
        "=== Model Structure Analysis ===\n\nNodes: 5\nEdges: 6\nFeedback Loops: 0\n\nReinforcing Loops: 0\nBalancing Loops: 0\n\nLoop Length Distribution:\n\n=== Reinforcing Loops ===\n\n=== Balancing Loops ===\n"
    );
}

#[test]
fn every_closed_path_is_found_once() {
    let mut graph = DependencyGraph::new();
    for name in ["a", "b", "c"] {
        graph.add_node(node(name, ElementType::Auxiliary));
    }
    for (from, to) in [("a", "b"), ("b", "a"), ("b", "c"), ("c", "b")] {
        graph.add_edge(
            node(from, ElementType::Auxiliary),
            node(to, ElementType::Auxiliary),
            Polarity::Positive,
        );
    }
    let loops = graph.find_feedback_loops(10);
    assert_eq!(loops.len(), 2);
    let mut found: Vec<Vec<String>> = Vec::new();
    for l in &loops {
        assert_eq!(l.length, 2);
        assert_eq!(l.nodes.len(), 2);
        let mut names: Vec<String> = l.nodes.iter().map(|n| n.name.clone()).collect();
        names.sort();
        found.push(names);
    }
    found.sort();
    assert_eq!(found, vec![vec!["a".to_string(), "b".to_string()], vec!["b".to_string(), "c".to_string()]]);
    assert_eq!(loops[0].nodes[0].name, "a");
    assert!(graph.find_feedback_loops(0).is_empty());
    assert_eq!(graph.find_feedback_loops(1).len(), 2);
}

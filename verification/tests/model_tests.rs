use rsedsim::analysis::structure::{ElementType, FeedbackLoop, GraphNode, Polarity};
use rsedsim::model::dimension::{Dimension, DimensionManager, SubscriptRef};
use rsedsim::model::units::{BaseDimension, DimensionalFormula, UnitChecker};
use rsedsim::analysis::optimization::{OptimizationConfig, ParameterBounds};
use rsedsim::number::Number;
use rsedsim::protocol::a2a::{handler_name, A2aError, AgentId, PayloadKind, BROADCAST_TTL, DIRECT_TTL};
use rsedsim::protocol::mcp::{answer_for, Answer, McpClient, McpError, McpServer, MessageKind};
use rsedsim::server::error::AppError;
use rsedsim::server::types::{default_integrator, default_stream, sends_data, STREAM_DECIMATION};
use rsedsim::simulation::engine::IntegrationMethod;

#[test]
fn test_polarity_combination() {
    assert_eq!(Polarity::Positive.combine(&Polarity::Positive), Polarity::Positive);
    assert_eq!(Polarity::Positive.combine(&Polarity::Negative), Polarity::Negative);
    assert_eq!(Polarity::Negative.combine(&Polarity::Negative), Polarity::Positive);
}

#[test]
fn polarity_unknown_absorbs() {
    assert_eq!(Polarity::Unknown.combine(&Polarity::Positive), Polarity::Unknown);
    assert_eq!(Polarity::Negative.combine(&Polarity::Unknown), Polarity::Unknown);
    assert_eq!(Polarity::Negative.combine(&Polarity::Positive), Polarity::Negative);
}

#[test]
fn feedback_loop_kinds() {
    let nodes = vec![
        GraphNode::new("Population".to_string(), ElementType::Stock),
        GraphNode::new("births".to_string(), ElementType::Flow),
    ];
    let reinforcing = FeedbackLoop { nodes, polarity: Polarity::Positive, length: 2 };
    assert!(reinforcing.is_reinforcing());
    assert!(!reinforcing.is_balancing());
    assert!(reinforcing.contains_stock());
    let balancing = FeedbackLoop {
        nodes: vec![GraphNode::new("a".to_string(), ElementType::Auxiliary)],
        polarity: Polarity::Negative,
        length: 1,
    };
    assert!(balancing.is_balancing());
    assert!(!balancing.is_reinforcing());
    assert!(!balancing.contains_stock());
}

#[test]
fn test_dimension_creation() {
    let dim = Dimension::new("Region", vec!["North".to_string(), "South".to_string()]);
    assert_eq!(dim.name, "Region");
    assert_eq!(dim.size(), 2);
    assert!(dim.contains("North"));
    assert!(!dim.contains("East"));
}

#[test]
fn test_dimension_manager() {
    let mut manager = DimensionManager::new();
    let dim = Dimension::new("Region", vec!["North".to_string(), "South".to_string()]);
    manager.add_dimension(dim).unwrap();

    let elements = manager.resolve_subscript(&SubscriptRef::Wildcard, "Region").unwrap();
    assert_eq!(elements, vec!["North", "South"]);
}

#[test]
fn dimension_lookup_and_errors() {
    let mut manager = DimensionManager::new();
    let dim = Dimension::new("Region", vec!["North".to_string(), "South".to_string()])
        .with_description("where");
    assert_eq!(dim.description.as_deref(), Some("where"));
    assert_eq!(dim.get_index("South"), Some(1));
    assert_eq!(dim.get_index("East"), None);
    manager.add_dimension(dim.clone()).unwrap();
    assert_eq!(manager.add_dimension(dim).unwrap_err(), "Dimension 'Region' already exists");
    assert!(manager.get_dimension("Region").is_some());
    assert!(manager.get_dimension("Product").is_none());
    assert_eq!(
        manager.resolve_subscript(&SubscriptRef::Element("North".to_string()), "Region").unwrap(),
        vec!["North"]
    );
    assert_eq!(
        manager.resolve_subscript(&SubscriptRef::Element("East".to_string()), "Region").unwrap_err(),
        "Element 'East' not found in dimension 'Region'"
    );
    assert_eq!(
        manager.resolve_subscript(&SubscriptRef::Dimension("Region".to_string()), "Region").unwrap(),
        vec!["North", "South"]
    );
    assert_eq!(
        manager.resolve_subscript(&SubscriptRef::Dimension("Half".to_string()), "Region").unwrap_err(),
        "Subset 'Half' not found"
    );
    assert_eq!(
        manager.resolve_subscript(&SubscriptRef::Wildcard, "Product").unwrap_err(),
        "Dimension 'Product' not found"
    );
    assert_eq!(manager.get_shape(&["Region".to_string()]).unwrap(), vec![2]);
    assert_eq!(
        manager.get_shape(&["Region".to_string(), "Product".to_string()]).unwrap_err(),
        "Dimension 'Product' not found"
    );
}

#[test]
fn flat_indices() {
    let manager = DimensionManager::new();
    assert_eq!(manager.indices_to_flat(&[2, 3], &[5, 4]), 11);
    assert_eq!(manager.indices_to_flat(&[], &[]), 0);
    assert_eq!(manager.indices_to_flat(&[7], &[9]), 7);
    assert_eq!(manager.indices_to_flat(&[1, 2, 3], &[4, 5, 6]), 1 * 30 + 2 * 6 + 3);
    assert_eq!(manager.flat_to_indices(11, &[5, 4]), vec![0, 11]);
    assert_eq!(manager.flat_to_indices(3, &[9]), vec![3]);
    assert_eq!(manager.flat_to_indices(3, &[]), Vec::<usize>::new());
}

#[test]
fn test_dimensional_formula() {
    let length = DimensionalFormula::length();
    let time = DimensionalFormula::time();

    let velocity = length.divide(&time);
    assert_eq!(velocity, DimensionalFormula::velocity());

    let acceleration = velocity.divide(&time);
    assert_eq!(acceleration, DimensionalFormula::acceleration());
}

#[test]
fn test_compatibility() {
    let length1 = DimensionalFormula::length();
    let length2 = DimensionalFormula::length();
    let time = DimensionalFormula::time();

    assert!(length1.is_compatible(&length2));
    assert!(!length1.is_compatible(&time));
}

#[test]
fn test_multiply() {
    let length = DimensionalFormula::length();
    let mass = DimensionalFormula::mass();
    let time = DimensionalFormula::time();

    // Force = mass * acceleration = mass * length / time^2
    let acceleration = length.divide(&time).divide(&time);
    let force = mass.multiply(&acceleration);

    assert_eq!(force, DimensionalFormula::force());
}

#[test]
fn test_unit_checker() {
    let mut checker = UnitChecker::new();
    checker.register_variable("distance".to_string(), DimensionalFormula::length());
    checker.register_variable("time".to_string(), DimensionalFormula::time());
    checker.register_variable("velocity".to_string(), DimensionalFormula::velocity());

    // Check division: distance / time should give velocity units
    let result = checker.check_divide("distance", "time");
    assert_eq!(result, DimensionalFormula::velocity());
}

#[test]
fn test_display() {
    assert_eq!(DimensionalFormula::velocity().to_string(), "m/s");
    assert_eq!(DimensionalFormula::acceleration().to_string(), "m/s^2");
    let force_str = DimensionalFormula::force().to_string();
    assert!(force_str == "kg*m/s^2" || force_str == "m*kg/s^2", "Got: {}", force_str);
}

#[test]
fn formula_text_forms() {
    assert_eq!(DimensionalFormula::dimensionless().to_string(), "1");
    assert_eq!(DimensionalFormula::from_base(BaseDimension::Time, -1).to_string(), "1/s");
    assert_eq!(DimensionalFormula::from_base(BaseDimension::Amount, 12).to_string(), "mol^12");
    assert_eq!(DimensionalFormula::power().to_string(), "m^2*kg/s^3");
    assert_eq!(DimensionalFormula::energy().to_string(), "m^2*kg/s^2");
    assert_eq!(DimensionalFormula::from_base(BaseDimension::Current, 0), DimensionalFormula::dimensionless());
    assert_eq!(
        DimensionalFormula::from_base(BaseDimension::Luminosity, i32::MIN).to_string(),
        "1/cd^2147483648"
    );
}

#[test]
fn formula_powers() {
    let squared = DimensionalFormula::velocity().raise_to_power(2);
    assert_eq!(squared.length, Some(2));
    assert_eq!(squared.time, Some(-2));
    let flat = DimensionalFormula::length().raise_to_power(0);
    assert_eq!(flat.length, Some(0));
    assert!(flat.is_dimensionless());
    assert!(!flat.is_compatible(&DimensionalFormula::dimensionless()));
    assert_eq!(flat.multiply(&DimensionalFormula::dimensionless()), DimensionalFormula::dimensionless());
    assert!(DimensionalFormula::dimensionless().is_dimensionless());
    assert!(!DimensionalFormula::mass().is_dimensionless());
}

#[test]
fn formula_parse() {
    assert_eq!(DimensionalFormula::parse("  M/S ").unwrap(), DimensionalFormula::velocity());
    assert_eq!(DimensionalFormula::parse("Newton").unwrap(), DimensionalFormula::force());
    assert_eq!(DimensionalFormula::parse("kg").unwrap(), DimensionalFormula::mass());
    assert_eq!(DimensionalFormula::parse("m/s2").unwrap(), DimensionalFormula::acceleration());
    assert_eq!(DimensionalFormula::parse("joules").unwrap(), DimensionalFormula::energy());
    assert_eq!(DimensionalFormula::parse("W").unwrap(), DimensionalFormula::power());
    assert_eq!(DimensionalFormula::parse("seconds").unwrap(), DimensionalFormula::time());
    assert_eq!(DimensionalFormula::parse("meters").unwrap(), DimensionalFormula::length());
    assert_eq!(DimensionalFormula::parse("furlong").unwrap(), DimensionalFormula::dimensionless());
    assert_eq!(DimensionalFormula::parse("").unwrap(), DimensionalFormula::dimensionless());
    assert_eq!(DimensionalFormula::from_normalized("M"), DimensionalFormula::dimensionless());
}

#[test]
fn unit_checker_rules() {
    let mut checker = UnitChecker::new();
    checker.register_variable("distance".to_string(), DimensionalFormula::length());
    checker.register_variable("span".to_string(), DimensionalFormula::length());
    checker.register_variable("time".to_string(), DimensionalFormula::time());
    assert!(checker.check_add("distance", "span").is_ok());
    assert_eq!(
        checker.check_add("distance", "time").unwrap_err(),
        "Unit mismatch in addition: distance (m) + time (s)"
    );
    assert_eq!(checker.check_add("mass", "time").unwrap_err(), "Units for 'mass' not found");
    assert_eq!(checker.check_add("time", "mass").unwrap_err(), "Units for 'mass' not found");
    assert_eq!(checker.check_multiply("distance", "unknown"), DimensionalFormula::length());
    assert_eq!(checker.get_units("time"), Some(&DimensionalFormula::time()));
    assert_eq!(checker.get_units("nothing"), None);
    checker.register_variable("time".to_string(), DimensionalFormula::mass());
    assert_eq!(checker.get_units("time"), Some(&DimensionalFormula::mass()));
}

#[test]
fn test_agent_id() {
    let id = AgentId::new("sim1", "agent_1");
    assert_eq!(id.to_string(), "sim1:agent_1");
}

#[test]
fn protocol_errors_in_words() {
    assert_eq!(A2aError::NoTransport.message(), "No transport configured");
    assert_eq!(A2aError::NotFound("x".to_string()).message(), "Not found: x");
    assert_eq!(A2aError::TimeoutError.message(), "Timeout");
    assert_eq!(McpError::NotImplemented.message(), "Not implemented");
    assert_eq!(McpError::MethodNotFound("run".to_string()).message(), "Method not found: run");
    let client = McpClient::new();
    assert!(!client.is_connected());
}

#[test]
fn server_values() {
    assert_eq!(default_integrator(), "euler");
    assert!(default_stream());
    assert_eq!(AppError::NotFound("m".to_string()).status_code(), 404);
    assert_eq!(AppError::BadRequest("m".to_string()).status_code(), 400);
    assert_eq!(AppError::InternalError("m".to_string()).status_code(), 500);
    assert_eq!(AppError::BadRequest("bad".to_string()).message(), "bad");
}

#[test]
fn test_mcp_server_creation() {
    let server = McpServer::new();
    assert!(!server.tools.is_empty());
    assert!(!server.resources.is_empty());
    assert_eq!(server.resources.len(), 3);
    assert_eq!(server.tools.len(), 4);
    assert_eq!(server.tools[3].name, "get_variable_timeseries");
    for tool in &server.tools {
        let schema: serde_json::Value = serde_json::from_str(&tool.input_schema).unwrap();
        assert_eq!(schema["type"], "object");
        assert!(schema["required"].as_array().unwrap().len() >= 1);
    }
    assert!(server.capabilities.tools.is_some());
    assert!(server.capabilities.resources.unwrap().subscribe);
    assert_eq!(server.resources[0].uri, "rsedsim://models/list");
    assert_eq!(server.resources[2].name, "Latest Results");
    assert_eq!(server.resources[1].mime_type.as_deref(), Some("application/json"));
}

fn number(x: f64) -> Number {
    Number::from_bits(x.to_bits())
}

fn double(n: Number) -> f64 {
    f64::from_bits(n.to_bits())
}

#[test]
fn bounds_keep_values_in_range() {
    let bounds = ParameterBounds::new("rate", number(0.0), number(1.0));
    assert_eq!(bounds.name, "rate");
    assert_eq!(double(bounds.clamp(number(-0.5))), 0.0);
    assert_eq!(double(bounds.clamp(number(0.25))), 0.25);
    assert_eq!(double(bounds.clamp(number(7.0))), 1.0);
    assert_eq!(double(bounds.clamp(number(f64::NAN))), 0.0);
    assert!(bounds.contains(number(0.0)));
    assert!(bounds.contains(number(1.0)));
    assert!(!bounds.contains(number(1.5)));
    assert!(!bounds.contains(number(f64::NAN)));
    let config = OptimizationConfig::default();
    assert_eq!(config.max_iterations, 100);
    assert_eq!(double(config.tolerance), 1e-6);
    assert_eq!(config.integration_method, IntegrationMethod::RK4);
}

#[test]
fn messages_find_their_handlers() {
    assert_eq!(handler_name(PayloadKind::Register), "register");
    assert_eq!(handler_name(PayloadKind::DirectMessage), "direct_message");
    assert_eq!(handler_name(PayloadKind::Publish), "publish");
    assert_eq!(handler_name(PayloadKind::Heartbeat), "unknown");
    assert_eq!(handler_name(PayloadKind::Subscribe), "unknown");
    assert_eq!(DIRECT_TTL, 10);
    assert_eq!(BROADCAST_TTL, 5);
}

#[test]
fn a_server_answers_what_it_lists() {
    assert_eq!(answer_for(MessageKind::ListResources).unwrap(), Answer::Resources);
    assert_eq!(answer_for(MessageKind::ListTools).unwrap(), Answer::Tools);
    assert!(matches!(answer_for(MessageKind::CallTool), Err(McpError::NotImplemented)));
    assert!(matches!(answer_for(MessageKind::Initialize), Err(McpError::NotImplemented)));
    assert_eq!(McpError::NotImplemented.code(), -32601);
    assert_eq!(McpError::ParseError("x".to_string()).code(), -32700);
    assert_eq!(McpError::InvalidParams("x".to_string()).code(), -32602);
    assert_eq!(McpError::TransportError("x".to_string()).code(), -32603);
}

#[test]
fn every_tenth_step_is_streamed() {
    assert_eq!(STREAM_DECIMATION, 10);
    assert!(sends_data(0, STREAM_DECIMATION));
    assert!(!sends_data(9, STREAM_DECIMATION));
    assert!(sends_data(20, STREAM_DECIMATION));
    assert!(sends_data(3, 1));
}

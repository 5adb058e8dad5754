use rsedsim::simulation::network::AgentNetwork;
use rsedsim::number::Number;
use rsedsim::simulation::agent_sd_bridge::{
    conditional_value, median_places, remove_first, AgentCoupling, AggregationType, AttributeMapping,
};
use rsedsim::simulation::abm::{AgentManager, AgentPopulation, AgentRule, AgentState, AgentType};

fn num(x: f64) -> Number {
    Number::from_bits(x.to_bits())
}

fn val(n: Number) -> f64 {
    f64::from_bits(n.to_bits())
}

fn sum_attribute(population: &AgentPopulation, attribute: &str) -> f64 {
    population.all_agents().iter().filter(|a| a.active).filter_map(|a| a.get(attribute)).map(val).sum()
}

fn mean_attribute(population: &AgentPopulation, attribute: &str) -> f64 {
    let active = population.count_active();
    if active == 0 {
        return 0.0;
    }
    sum_attribute(population, attribute) / active as f64
}

#[test]
fn test_agent_creation() {
    let mut agent_type = AgentType::new("Person".to_string());
    agent_type.add_attribute("age".to_string(), num(25.0));
    agent_type.add_attribute("income".to_string(), num(50000.0));

    let agent = agent_type.create_agent(0);
    assert_eq!(agent.get("age"), Some(num(25.0)));
    assert_eq!(agent.get("income"), Some(num(50000.0)));
}

#[test]
fn test_population() {
    let mut agent_type = AgentType::new("Person".to_string());
    agent_type.add_attribute("wealth".to_string(), num(100.0));

    let mut pop = AgentPopulation::new("Person".to_string());

    let id1 = pop.create_agent(&agent_type);
    let id2 = pop.create_agent(&agent_type);
    let id3 = pop.create_agent(&agent_type);

    assert_eq!(pop.count_active(), 3);

    // Modify agent wealth
    assert!(pop.set_attribute(id1, "wealth".to_string(), num(150.0)));
    assert!(pop.set_attribute(id2, "wealth".to_string(), num(75.0)));

    assert_eq!(sum_attribute(&pop, "wealth"), 325.0);
    assert_eq!(mean_attribute(&pop, "wealth"), 325.0 / 3.0);
    assert_eq!(val(pop.max_attribute("wealth")), 150.0);
    assert_eq!(val(pop.min_attribute("wealth")), 75.0);
    assert_eq!(val(pop.max_attribute("height")), f64::NEG_INFINITY);
    assert_eq!(val(pop.min_attribute("height")), f64::INFINITY);

    // Deactivate one
    assert!(pop.deactivate_agent(id3));
    assert_eq!(pop.count_active(), 2);
    assert!(!pop.deactivate_agent(99));
    assert!(!pop.set_attribute(99, "wealth".to_string(), num(1.0)));
    assert_eq!(val(pop.min_attribute("wealth")), 75.0);
    pop.remove_agent(id2);
    assert!(pop.get_agent(id2).is_none());
    assert_eq!(pop.get_agent(id1).unwrap().get("wealth"), Some(num(150.0)));
    assert_eq!(pop.all_agents().len(), 2);
    assert_eq!(pop.create_agent(&agent_type), 3);
}

#[test]
fn test_agent_manager() {
    let mut manager = AgentManager::new();

    let mut agent_type = AgentType::new("Person".to_string());
    agent_type.add_attribute("energy".to_string(), num(100.0));

    manager.register_type(agent_type);
    manager.create_agents("Person", 10).unwrap();

    assert_eq!(manager.count_agents("Person"), 10);
    assert_eq!(manager.total_agent_count(), 10);
}

#[test]
fn agents_follow_the_rules_of_their_type() {
    let mut manager = AgentManager::new();
    let mut mortal = AgentType::new("Mayfly".to_string());
    mortal.add_rule(AgentRule::SetAttribute { attribute: "age".to_string(), expression: "age + 1".to_string() });
    mortal.add_rule(AgentRule::Die);
    assert!(mortal.dies());
    let lasting = AgentType::new("Rock".to_string());
    assert!(!lasting.dies());
    manager.register_type(mortal);
    manager.register_type(lasting);
    manager.create_agents("Mayfly", 3).unwrap();
    manager.create_agents("Rock", 2).unwrap();
    assert_eq!(manager.create_agents("Bird", 1).unwrap_err(), "Agent type 'Bird' not found");
    assert_eq!(manager.total_agent_count(), 5);
    manager.populations[0].deactivate_agent(1);
    manager.update_agents().unwrap();
    assert_eq!(manager.count_agents("Mayfly"), 0);
    assert_eq!(manager.get_population("Mayfly").unwrap().all_agents().len(), 1);
    assert_eq!(manager.count_agents("Rock"), 2);
    assert_eq!(manager.count_agents("Bird"), 0);
    assert!(manager.get_population("Bird").is_none());
    manager.register_type(AgentType::new("Rock".to_string()));
    assert_eq!(manager.count_agents("Rock"), 0);
    assert_eq!(manager.populations.len(), 2);
    let mut agent = AgentState::new(7, "Rock".to_string());
    agent.set("mass".to_string(), num(2.0));
    agent.set("mass".to_string(), num(3.0));
    assert_eq!(agent.get("mass"), Some(num(3.0)));
    assert_eq!(agent.attributes.len(), 1);
    agent.deactivate();
    assert!(!agent.active);
}

#[test]
fn coupling_steps() {
    let coupling = AgentCoupling::new();
    assert_eq!(val(coupling.agents_per_flow_unit), 1.0);
    assert!(coupling.creation_flow.is_none());
    assert_eq!(val(conditional_value(Some(num(5.0)), num(3.0), num(9.0))), 9.0);
    assert_eq!(val(conditional_value(Some(num(3.0)), num(3.0), num(9.0))), 3.0);
    assert_eq!(val(conditional_value(None, num(-1.0), num(9.0))), 9.0);
    assert_eq!(val(conditional_value(None, num(1.0), num(9.0))), 0.0);
    assert_eq!(median_places(1), (0, 0));
    assert_eq!(median_places(4), (1, 2));
    assert_eq!(median_places(5), (2, 2));
    let kind = AgentType::new("Person".to_string());
    let mut pop = AgentPopulation::new("Person".to_string());
    for _ in 0..5 {
        pop.create_agent(&kind);
    }
    remove_first(&mut pop, 2);
    let ids: Vec<usize> = pop.all_agents().iter().map(|a| a.id).collect();
    assert_eq!(ids, vec![2, 3, 4]);
    remove_first(&mut pop, 0);
    assert_eq!(pop.all_agents().len(), 3);
    remove_first(&mut pop, 7);
    assert!(pop.all_agents().is_empty());
    let mapping = AttributeMapping {
        attribute_name: "wealth".to_string(),
        sd_variable: "Total".to_string(),
        aggregation: AggregationType::Median,
    };
    assert_eq!(mapping.aggregation, AggregationType::Median);
}

#[test]
fn test_agent_network() {
    let mut network = AgentNetwork::new();
    network.add_edge(1, 2, weight(1.0));
    network.add_edge(2, 3, weight(1.0));
    network.add_edge(1, 3, weight(0.5));
    assert_eq!(network.get_neighbors(1).len(), 2);
    let avg = network.link_count() as f64 / network.linked_agents() as f64;
    assert!(avg > 0.0 && avg <= 2.0, "Average degree was {}", avg);
    assert_eq!(avg, 1.5);
    assert_eq!(network.get_neighbors(1), vec![2, 3]);
    assert_eq!(unweight(network.get_edge_weight(1, 3)), 0.5);
    assert!(network.get_neighbors(7).is_empty());
    assert_eq!(unweight(network.get_edge_weight(3, 1)), 0.0);
}

#[test]
fn links_and_closed_pairs_are_counted() {
    let mut network = AgentNetwork::new();
    assert_eq!(network.linked_agents(), 0);
    assert_eq!(network.link_count(), 0);
    for (from, to) in [(0, 1), (0, 2), (0, 3), (1, 2), (2, 1), (3, 0)] {
        network.add_edge(from, to, weight(1.0));
    }
    network.add_edge(0, 1, weight(2.5));
    assert_eq!(network.get_neighbors(0), vec![1, 2, 3, 1]);
    assert_eq!(unweight(network.get_edge_weight(0, 1)), 2.5);
    assert_eq!(network.linked_agents(), 4);
    assert_eq!(network.link_count(), 7);
    assert!(network.is_linked(1, 2));
    assert!(!network.is_linked(1, 3));
    assert!(!network.is_linked(9, 0));
    assert_eq!(network.closed_neighbour_pairs(0), 2);
    assert_eq!(network.closed_neighbour_pairs(1), 0);
    assert_eq!(network.closed_neighbour_pairs(9), 0);
}

fn weight(x: f64) -> rsedsim::number::Number {
    rsedsim::number::Number::from_bits(x.to_bits())
}

fn unweight(n: rsedsim::number::Number) -> f64 {
    f64::from_bits(n.to_bits())
}

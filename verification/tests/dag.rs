use esp_scanner_base::resolution::dag::{DependencyGraph, SymbolType, GraphStats};
use esp_scanner_base::resolution::error::ResolutionError;

#[test]
fn test_simple_topological_sort() {
    let mut graph = DependencyGraph::new();
    graph.add_node("A".to_string(), SymbolType::Variable).unwrap();
    graph.add_node("B".to_string(), SymbolType::RuntimeOperation).unwrap();
    graph.add_node("C".to_string(), SymbolType::SetOperation).unwrap();
    graph.add_dependency("A", "B").unwrap();
    graph.add_dependency("B", "C").unwrap();

    let order = graph.topological_sort().unwrap();
    let c_pos = order.iter().position(|x| x == "C").unwrap();
    let b_pos = order.iter().position(|x| x == "B").unwrap();
    let a_pos = order.iter().position(|x| x == "A").unwrap();
    assert!(c_pos < b_pos, "C should come before B");
    assert!(b_pos < a_pos, "B should come before A");
}

#[test]
fn test_independent_nodes() {
    let mut graph = DependencyGraph::new();
    graph.add_node("X".to_string(), SymbolType::Variable).unwrap();
    graph.add_node("Y".to_string(), SymbolType::Variable).unwrap();
    graph.add_node("Z".to_string(), SymbolType::Variable).unwrap();

    let order = graph.topological_sort().unwrap();
    assert_eq!(order.len(), 3);
    assert!(order.contains(&"X".to_string()));
    assert!(order.contains(&"Y".to_string()));
    assert!(order.contains(&"Z".to_string()));
}

#[test]
fn test_cycle_detection() {
    let mut graph = DependencyGraph::new();
    graph.add_node("A".to_string(), SymbolType::Variable).unwrap();
    graph.add_node("B".to_string(), SymbolType::Variable).unwrap();
    graph.add_node("C".to_string(), SymbolType::Variable).unwrap();
    graph.add_dependency("A", "B").unwrap();
    graph.add_dependency("B", "C").unwrap();
    graph.add_dependency("C", "A").unwrap();

    assert!(graph.detect_cycle().is_some());
}

#[test]
fn test_no_cycle_detection() {
    let mut graph = DependencyGraph::new();
    graph.add_node("A".to_string(), SymbolType::Variable).unwrap();
    graph.add_node("B".to_string(), SymbolType::Variable).unwrap();
    graph.add_node("C".to_string(), SymbolType::Variable).unwrap();
    graph.add_dependency("A", "B").unwrap();
    graph.add_dependency("A", "C").unwrap();

    assert!(graph.detect_cycle().is_none());
}

#[test]
fn test_complex_dependency_resolution() {
    let mut graph = DependencyGraph::new();
    for symbol in ["A", "B", "C", "D"] {
        graph.add_node(symbol.to_string(), SymbolType::Variable).unwrap();
    }
    graph.add_dependency("A", "B").unwrap();
    graph.add_dependency("A", "C").unwrap();
    graph.add_dependency("B", "D").unwrap();
    graph.add_dependency("C", "D").unwrap();

    let order = graph.topological_sort().unwrap();
    let a_pos = order.iter().position(|x| x == "A").unwrap();
    let b_pos = order.iter().position(|x| x == "B").unwrap();
    let c_pos = order.iter().position(|x| x == "C").unwrap();
    let d_pos = order.iter().position(|x| x == "D").unwrap();
    assert_eq!(d_pos, 0, "D should resolve first");
    assert!(b_pos < a_pos, "B should resolve before A");
    assert!(c_pos < a_pos, "C should resolve before A");
    assert!(d_pos < b_pos, "D should resolve before B");
    assert!(d_pos < c_pos, "D should resolve before C");
    assert_eq!(a_pos, 3, "A should resolve last");
}

#[test]
fn test_graph_validation() {
    let mut graph = DependencyGraph::new();
    graph.add_node("A".to_string(), SymbolType::Variable).unwrap();
    graph.add_node("B".to_string(), SymbolType::Variable).unwrap();
    graph.add_dependency("A", "B").unwrap();
    assert!(graph.validate().is_ok());
}

#[test]
fn cycle_is_reported_by_topological_sort() {
    let mut graph = DependencyGraph::new();
    graph.add_node("A".to_string(), SymbolType::Variable).unwrap();
    graph.add_node("B".to_string(), SymbolType::Variable).unwrap();
    graph.add_dependency("A", "B").unwrap();
    graph.add_dependency("B", "A").unwrap();
    match graph.topological_sort() {
        Err(ResolutionError::CircularDependency { cycle }) => {
            assert!(cycle.len() >= 2);
            assert_eq!(cycle.first(), cycle.last());
        }
        Err(ResolutionError::DependencyGraphCorrupted { details }) => {
            assert!(details.starts_with("Topological sort incomplete: "));
        }
        other => panic!("expected a cycle error, got {:?}", other),
    }
}

#[test]
fn detected_cycle_is_a_closed_path() {
    let mut graph = DependencyGraph::new();
    for s in ["P", "Q", "R"] {
        graph.add_node(s.to_string(), SymbolType::Variable).unwrap();
    }
    graph.add_dependency("P", "Q").unwrap();
    graph.add_dependency("Q", "R").unwrap();
    graph.add_dependency("R", "Q").unwrap();
    let cycle = graph.detect_cycle().unwrap();
    assert_eq!(cycle.first(), cycle.last());
    assert!(cycle.contains(&"Q".to_string()) && cycle.contains(&"R".to_string()));
}

#[test]
fn duplicate_node_is_skipped() {
    let mut graph = DependencyGraph::new();
    graph.add_node("A".to_string(), SymbolType::Variable).unwrap();
    assert!(graph.add_node("A".to_string(), SymbolType::GlobalState).is_ok());
    assert_eq!(graph.get_stats().total_nodes, 1);
    assert_eq!(graph.get_stats().global_symbols, 1);
}

#[test]
fn dependency_on_missing_node_is_rejected() {
    let mut graph = DependencyGraph::new();
    graph.add_node("A".to_string(), SymbolType::Variable).unwrap();
    assert!(graph.add_dependency("A", "missing").is_err());
    assert!(graph.add_dependency("missing", "A").is_err());
}

#[test]
fn stats_count_nodes_and_edges() {
    let mut graph = DependencyGraph::new();
    for s in ["A", "B", "C"] {
        graph.add_node(s.to_string(), SymbolType::Variable).unwrap();
    }
    graph.add_dependency("A", "B").unwrap();
    graph.add_dependency("A", "C").unwrap();
    let stats: GraphStats = graph.get_stats();
    assert_eq!(stats.total_nodes, 3);
    assert_eq!(stats.total_edges, 2);
    assert_eq!(stats.max_dependencies, 2);
    assert_eq!(stats.nodes_with_no_dependencies, 2);
    assert_eq!(stats.global_symbols, 3);
    assert!(stats.is_well_balanced());
    assert_eq!(graph.get_independent_symbols(), vec!["B".to_string(), "C".to_string()]);
    assert_eq!(graph.get_leaf_symbols(), vec!["A".to_string()]);
    assert_eq!(graph.get_dependencies("A"), vec!["B".to_string(), "C".to_string()]);
    assert_eq!(graph.get_dependents("B"), vec!["A".to_string()]);
}

#[test]
fn symbol_type_names_round_trip() {
    for t in [SymbolType::Variable, SymbolType::RuntimeOperation, SymbolType::SetOperation,
              SymbolType::GlobalState, SymbolType::GlobalObject, SymbolType::LocalState, SymbolType::LocalObject] {
        assert_eq!(SymbolType::from_str(t.as_str()), Some(t));
    }
    assert!(SymbolType::LocalState.is_local());
    assert!(SymbolType::Variable.is_global());
}

#[test]
fn detected_cycle_starts_where_the_search_meets_it_again() {
    let mut graph = DependencyGraph::new();
    for s in ["P", "Q", "R"] {
        graph.add_node(s.to_string(), SymbolType::Variable).unwrap();
    }
    graph.add_dependency("P", "Q").unwrap();
    graph.add_dependency("Q", "R").unwrap();
    graph.add_dependency("R", "Q").unwrap();
    let expected = vec!["Q".to_string(), "R".to_string(), "Q".to_string()];
    assert_eq!(graph.detect_cycle().unwrap(), expected);
    match graph.topological_sort() {
        Err(ResolutionError::CircularDependency { cycle }) => assert_eq!(cycle, expected),
        other => panic!("expected a cycle error, got {:?}", other),
    }
}

#[test]
fn repeated_dependency_is_listed_once_on_the_nodes() {
    let mut graph = DependencyGraph::new();
    graph.add_node("A".to_string(), SymbolType::Variable).unwrap();
    graph.add_node("B".to_string(), SymbolType::Variable).unwrap();
    graph.add_dependency("A", "B").unwrap();
    graph.add_dependency("A", "B").unwrap();
    assert_eq!(graph.nodes.get("A").unwrap().dependencies, vec!["B".to_string()]);
    assert_eq!(graph.nodes.get("B").unwrap().dependents, vec!["A".to_string()]);
    assert_eq!(graph.get_dependencies("A"), vec!["B".to_string(), "B".to_string()]);
}

use rigs::bead::{Bead, BeadId, TaskType};
use rigs::error::RigsError;
use rigs::graph::{check_acyclic, topo_order};

fn bead_with_deps(id: &str, deps: Vec<&str>) -> Bead {
    let mut b = Bead::new(id.to_string(), "d".to_string(), TaskType::Implementation);
    b.id = BeadId::parse(id).unwrap();
    b.dependencies = deps.into_iter().map(|d| BeadId::parse(d).unwrap()).collect();
    b
}

#[test]
fn test_cycle_detected_and_reported() {
    // a -> b -> c -> a
    let beads = vec![
        bead_with_deps("gt-aaaaa", vec!["gt-bbbbb"]),
        bead_with_deps("gt-bbbbb", vec!["gt-ccccc"]),
        bead_with_deps("gt-ccccc", vec!["gt-aaaaa"]),
    ];
    let err = check_acyclic(&beads).unwrap_err();
    match err {
        RigsError::DependencyCycle(ids) => {
            assert_eq!(ids.len(), 3);
            let mut names: Vec<&str> = ids.iter().map(|i| i.as_str()).collect();
            // the cycle is reported as some rotation of a, b, c
            let start = names.iter().position(|n| *n == "gt-aaaaa").unwrap();
            names.rotate_left(start);
            assert_eq!(names, vec!["gt-aaaaa", "gt-bbbbb", "gt-ccccc"]);
        },
        other => panic!("expected a dependency cycle, got {:?}", other),
    }
}

#[test]
fn test_acyclic_graph_accepted() {
    // c depends on b depends on a: a diamond-free chain
    let beads = vec![
        bead_with_deps("gt-aaaaa", vec![]),
        bead_with_deps("gt-bbbbb", vec!["gt-aaaaa"]),
        bead_with_deps("gt-ccccc", vec!["gt-bbbbb"]),
    ];
    assert!(check_acyclic(&beads).is_ok());
}

#[test]
fn test_self_dependency_is_a_cycle() {
    let beads = vec![bead_with_deps("gt-aaaaa", vec!["gt-aaaaa"])];
    let err = check_acyclic(&beads).unwrap_err();
    match err {
        RigsError::DependencyCycle(ids) => {
            assert_eq!(ids.len(), 1);
            assert_eq!(ids[0].as_str(), "gt-aaaaa");
        },
        other => panic!("expected a dependency cycle, got {:?}", other),
    }
}

#[test]
fn test_unknown_dependency_ignored_for_cycles() {
    // a depends on an id outside the set: no cycle among the given beads
    let beads = vec![bead_with_deps("gt-aaaaa", vec!["gt-xxxxx"])];
    assert!(check_acyclic(&beads).is_ok());
}

#[test]
fn test_topo_order_respects_dependencies() {
    // node 0 depends on 1 and 2; node 1 depends on 2
    let deps: Vec<Vec<usize>> = vec![vec![1, 2], vec![2], vec![]];
    let ord = topo_order(&deps).unwrap();
    let pos = |v: usize| ord.iter().position(|x| *x == v).unwrap();
    assert!(pos(2) < pos(1));
    assert!(pos(1) < pos(0));
    assert!(pos(2) < pos(0));
}

#[test]
fn test_topo_order_reports_index_cycle() {
    let deps: Vec<Vec<usize>> = vec![vec![1], vec![0]];
    let cycle = topo_order(&deps).unwrap_err();
    assert_eq!(cycle.len(), 2);
    assert!(cycle.contains(&0) && cycle.contains(&1));
}

#[test]
fn test_empty_graph_is_acyclic() {
    let beads: Vec<Bead> = Vec::new();
    assert!(check_acyclic(&beads).is_ok());
    let deps: Vec<Vec<usize>> = Vec::new();
    assert_eq!(topo_order(&deps).unwrap().len(), 0);
}

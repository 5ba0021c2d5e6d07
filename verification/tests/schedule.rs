//! The dependency scheduler: deterministic topological order and cycle
//! reporting.

use platformtree::graph::schedule;

#[test]
fn empty_graph_schedules_in_index_order() {
    let edges: Vec<(usize, usize)> = Vec::new();
    let order = schedule(4, &edges).expect("no cycle");
    assert_eq!(order, vec![0, 1, 2, 3]);
}

#[test]
fn dependencies_come_first() {
    // 0 depends on 3: 3 must be scheduled before 0, everything else by index
    let edges: Vec<(usize, usize)> = vec![(0, 3)];
    let order = schedule(4, &edges).expect("no cycle");
    assert_eq!(order, vec![1, 2, 3, 0]);
}

#[test]
fn ties_break_by_smallest_index() {
    // both 1 and 2 are free; 1 goes first
    let edges: Vec<(usize, usize)> = vec![(0, 1), (0, 2)];
    let order = schedule(3, &edges).expect("no cycle");
    assert_eq!(order, vec![1, 2, 0]);
}

#[test]
fn chains_unwind_from_the_bottom() {
    let edges: Vec<(usize, usize)> = vec![(0, 1), (1, 2), (2, 3)];
    let order = schedule(4, &edges).expect("no cycle");
    assert_eq!(order, vec![3, 2, 1, 0]);
}

#[test]
fn schedule_is_deterministic() {
    let edges: Vec<(usize, usize)> = vec![(2, 5), (5, 1), (4, 0), (3, 4)];
    let a = schedule(6, &edges).expect("no cycle");
    let b = schedule(6, &edges).expect("no cycle");
    assert_eq!(a, b);
}

#[test]
fn order_respects_every_edge() {
    let edges: Vec<(usize, usize)> = vec![(2, 5), (5, 1), (4, 0), (3, 4), (3, 1)];
    let order = schedule(6, &edges).expect("no cycle");
    let pos = |v: usize| order.iter().position(|&x| x == v).unwrap();
    for (dependent, dependency) in edges {
        assert!(pos(dependency) < pos(dependent));
    }
}

#[test]
fn two_cycle_is_reported_as_closed_walk() {
    // X and Y depend on each other: no order exists
    let edges: Vec<(usize, usize)> = vec![(0, 1), (1, 0)];
    let cycle = schedule(2, &edges).expect_err("mutual dependency");
    assert!(cycle.len() >= 3);
    assert_eq!(cycle.first(), cycle.last());
    for w in cycle.windows(2) {
        assert!(edges.contains(&(w[0], w[1])));
    }
}

#[test]
fn self_loop_is_a_cycle() {
    let edges: Vec<(usize, usize)> = vec![(0, 0)];
    let cycle = schedule(1, &edges).expect_err("self dependency");
    assert_eq!(cycle.first(), cycle.last());
    assert!(cycle.len() >= 2);
}

#[test]
fn cycle_detection_leaves_untangled_nodes_alone() {
    // 2 and 3 form a cycle; scheduling still fails as a whole
    let edges: Vec<(usize, usize)> = vec![(2, 3), (3, 2), (1, 0)];
    assert!(schedule(4, &edges).is_err());
}

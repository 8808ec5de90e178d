use porcelain::graph::{CommitGraph, Graph, GraphError};
use porcelain::oid::Oid;

fn id(n: u8) -> Oid {
    let mut bytes = [0u8; 20];
    bytes[19] = n;
    Oid { bytes }
}

fn graph_of(parents: Vec<Vec<usize>>) -> CommitGraph {
    let mut g = CommitGraph::new();
    for (i, p) in parents.into_iter().enumerate() {
        let at = g.add(id(i as u8 + 1), p, format!("commit {i}"), false);
        assert_eq!(at, Some(i));
    }
    g
}

#[test]
fn same_tip_has_no_divergence() {
    let g = graph_of(vec![vec![], vec![0], vec![1]]);
    let r = Graph::ahead_behind(&g, &id(3), &id(3)).ok().unwrap();
    assert!(r.ahead.is_empty());
    assert!(r.behind.is_empty());
}

#[test]
fn fork_gives_both_sides() {
    // 0 <- 1 <- 2 <- 4 (local), 1 <- 3 <- 5 (remote)
    let g = graph_of(vec![vec![], vec![0], vec![1], vec![1], vec![2], vec![3]]);
    let r = Graph::ahead_behind(&g, &id(5), &id(6)).ok().unwrap();
    assert_eq!(r.ahead, vec![4, 2]);
    assert_eq!(r.behind, vec![5, 3]);
    assert_eq!(g.merge_base(4, 5), Some(1));
    for c in &r.ahead {
        assert!(!r.behind.contains(c));
    }
}

#[test]
fn local_strictly_ahead() {
    let g = graph_of(vec![vec![], vec![0], vec![1]]);
    let r = Graph::ahead_behind(&g, &id(3), &id(1)).ok().unwrap();
    assert_eq!(r.ahead, vec![2, 1]);
    assert!(r.behind.is_empty());
}

#[test]
fn merge_commit_reaches_both_parents() {
    // 0 <- 1, 0 <- 2, 3 merges 1 and 2
    let g = graph_of(vec![vec![], vec![0], vec![0], vec![1, 2]]);
    assert_eq!(g.reachable_from(3), vec![true, true, true, true]);
    assert_eq!(g.reachable_from(1), vec![true, true, false, false]);
    assert_eq!(g.walk(3, 1), vec![3, 2]);
    let r = Graph::ahead_behind(&g, &id(4), &id(2)).ok().unwrap();
    assert_eq!(r.ahead, vec![3, 2]);
    assert!(r.behind.is_empty());
}

#[test]
fn unrelated_histories_are_an_error() {
    let g = graph_of(vec![vec![], vec![]]);
    let r = Graph::ahead_behind(&g, &id(1), &id(2));
    assert!(matches!(r, Err(GraphError::Unrelated)));
    assert_eq!(g.merge_base(0, 1), None);
}

#[test]
fn missing_commit_is_an_error() {
    let g = graph_of(vec![vec![]]);
    match Graph::ahead_behind(&g, &id(9), &id(1)) {
        Err(GraphError::NotFound(missing)) => assert!(missing.same(&id(9))),
        _ => panic!("expected a missing commit"),
    }
    match Graph::ahead_behind(&g, &id(1), &id(8)) {
        Err(GraphError::NotFound(missing)) => assert!(missing.same(&id(8))),
        _ => panic!("expected a missing commit"),
    }
}

#[test]
fn criss_cross_shares_a_commit() {
    // two roots, both tips merge both roots: only one root is the merge base
    let g = graph_of(vec![vec![], vec![], vec![0, 1], vec![0, 1]]);
    let r = Graph::ahead_behind(&g, &id(3), &id(4)).ok().unwrap();
    assert_eq!(g.merge_base(2, 3), Some(1));
    assert_eq!(r.ahead, vec![2, 0]);
    assert_eq!(r.behind, vec![3, 0]);
}

#[test]
fn add_refuses_unknown_parent_and_known_id() {
    let mut g = graph_of(vec![vec![]]);
    assert_eq!(g.add(id(7), vec![3], String::new(), false), None);
    assert_eq!(g.add(id(1), vec![], String::new(), false), None);
    assert_eq!(g.len(), 1);
    assert_eq!(g.find(&id(1)), Some(0));
    assert_eq!(g.find(&id(7)), None);
}

#[test]
fn first_parent_ancestors() {
    let g = graph_of(vec![vec![], vec![0], vec![], vec![1, 2]]);
    assert_eq!(g.parent_n(3, 0), Some(3));
    assert_eq!(g.parent_n(3, 1), Some(1));
    assert_eq!(g.parent_n(3, 2), Some(0));
    assert_eq!(g.parent_n(3, 3), None);
}

#[test]
fn sides_relative_to_a_given_base() {
    // 0 <- 1 <- 2 <- 4 (local), 1 <- 3 <- 5 (remote)
    let g = graph_of(vec![vec![], vec![0], vec![1], vec![1], vec![2], vec![3]]);
    let r = Graph::with_base(&g, &id(5), &id(6), &id(2)).ok().unwrap();
    assert_eq!(r.ahead, vec![4, 2]);
    assert_eq!(r.behind, vec![5, 3]);
    let r = Graph::with_base(&g, &id(5), &id(6), &id(1)).ok().unwrap();
    assert_eq!(r.ahead, vec![4, 2, 1]);
    assert_eq!(r.behind, vec![5, 3, 1]);
    match Graph::with_base(&g, &id(5), &id(6), &id(9)) {
        Err(GraphError::NotFound(missing)) => assert!(missing.same(&id(9))),
        _ => panic!("expected a missing commit"),
    }
}

#[test]
fn given_the_merge_base_both_ways_agree() {
    let g = graph_of(vec![vec![], vec![0], vec![1], vec![1], vec![2], vec![3]]);
    let base = g.merge_base(4, 5).unwrap();
    let own = Graph::ahead_behind(&g, &id(5), &id(6)).ok().unwrap();
    let given = Graph::with_base(&g, &id(5), &id(6), &g.commits[base].id).ok().unwrap();
    assert_eq!(own.ahead, given.ahead);
    assert_eq!(own.behind, given.behind);
}

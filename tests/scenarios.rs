use mcch_contraction::{costs_by_alpha, Contraction, Edge, ShortcutSearch, Step, ACCURACY, SCALE};

const U: u32 = 0;
const V: u32 = 1;
const W: u32 = 2;

fn units(c: &[f64]) -> Vec<i64> {
    c.iter().map(|x| (x * SCALE as f64).round() as i64).collect()
}

/// Best of the given path costs under `alpha`; the first wins a tie.
fn best_path(paths: &[Vec<i64>], alpha: &[i64]) -> Vec<i64> {
    let mut best = paths[0].clone();
    for p in &paths[1..] {
        if costs_by_alpha(p, alpha) < costs_by_alpha(&best, alpha) {
            best = p.clone();
        }
    }
    best
}

/// Runs the search with a path oracle over the via path and the direct
/// alternatives; no scenario here reaches the LP.
fn decide(e1: &Edge<u32, u32>, e2: &Edge<u32, u32>, direct: &[Vec<i64>]) -> (Option<ShortcutSearch<u32, u32>>, Step) {
    let mut search = match ShortcutSearch::begin(e1, e2) {
        Some(s) => s,
        None => return (None, Step::Reject),
    };
    let via: Vec<i64> = e1.cost.iter().zip(&e2.cost).map(|(a, b)| a + b).collect();
    let mut paths = vec![via];
    paths.extend(direct.iter().cloned());
    let p = best_path(&paths, &search.alpha);
    let step = search.on_path(&p);
    (Some(search), step)
}

fn edges(c1: &[f64], c2: &[f64]) -> (Edge<u32, u32>, Edge<u32, u32>) {
    (Edge::new(10, U, V, units(c1)), Edge::new(11, V, W, units(c2)))
}

#[test]
fn only_path_gives_shortcut() {
    let (e1, e2) = edges(&[2.0, 1.0], &[1.0, 2.0]);
    let (search, step) = decide(&e1, &e2, &[]);
    assert_eq!(step, Step::Accept);
    let sc = search.unwrap().shortcut;
    assert_eq!(sc.cost, units(&[3.0, 3.0]));
    assert_eq!(sc.replaced_edges, (10, 11));
    assert_eq!((sc.from, sc.to), (U, W));
}

#[test]
fn equal_parallel_edge_still_gives_shortcut() {
    let (e1, e2) = edges(&[2.0, 1.0], &[1.0, 2.0]);
    let (search, step) = decide(&e1, &e2, &[units(&[3.0, 3.0])]);
    assert_eq!(step, Step::Accept);
    assert_eq!(search.unwrap().shortcut.cost, units(&[3.0, 3.0]));
}

#[test]
fn dominating_parallel_edge_gives_none() {
    let (e1, e2) = edges(&[2.0, 1.0], &[1.0, 2.0]);
    let (_, step) = decide(&e1, &e2, &[units(&[2.0, 2.0])]);
    assert_eq!(step, Step::Reject);
}

#[test]
fn cheaper_alternative_everywhere_gives_none() {
    let (e1, e2) = edges(&[1.0, 0.0], &[0.0, 1.0]);
    let (_, step) = decide(&e1, &e2, &[units(&[0.6, 0.6])]);
    assert_eq!(step, Step::Reject);
}

#[test]
fn alternative_below_both_components_dominates() {
    // [0.4, 0.8] is below [1, 1] in both components, so the first witness dominates.
    let (e1, e2) = edges(&[1.0, 0.0], &[0.0, 1.0]);
    let (_, step) = decide(&e1, &e2, &[units(&[0.4, 0.8])]);
    assert_eq!(step, Step::Reject);
}

#[test]
fn self_loop_gives_none_without_search() {
    let e1 = Edge::new(10, U, V, units(&[1.0, 1.0]));
    let e2 = Edge::new(11, V, U, units(&[1.0, 1.0]));
    assert!(ShortcutSearch::begin(&e1, &e2).is_none());
}

#[test]
fn incomparable_witness_becomes_cut() {
    // Under equal weights [0.2, 1.6] (cost 0.9) beats [1, 1] (cost 1) without dominating it.
    let (e1, e2) = edges(&[1.0, 0.0], &[0.0, 1.0]);
    let (search, step) = decide(&e1, &e2, &[units(&[0.2, 1.6])]);
    assert_eq!(step, Step::Solve);
    let s = search.unwrap();
    assert_eq!(s.constraint, units(&[-0.8, 0.6]));
    assert!(!s.exact);
}

#[test]
fn witness_within_tolerance_is_accepted() {
    let (e1, e2) = edges(&[1.0, 0.0], &[0.0, 1.0]);
    let mut s = ShortcutSearch::begin(&e1, &e2).unwrap();
    let p = vec![SCALE - ACCURACY, SCALE + ACCURACY];
    assert_eq!(s.on_path(&p), Step::Accept);
    let q = vec![SCALE - 10 * ACCURACY, SCALE];
    assert_eq!(s.on_path(&q), Step::Reject);
}

#[test]
fn solver_answers_drive_the_search() {
    let (e1, e2) = edges(&[1.0, 0.0], &[0.0, 1.0]);
    let mut s = ShortcutSearch::begin(&e1, &e2).unwrap();
    assert_eq!(s.on_solution(None), Step::Reject);
    assert_eq!(s.on_solution(Some((vec![0, SCALE], -ACCURACY))), Step::Reject);
    assert_eq!(s.alpha, vec![SCALE / 2, SCALE / 2]);
    // A new preference moves the search and keeps the fast mode.
    assert_eq!(s.on_solution(Some((vec![SCALE / 4, 3 * SCALE / 4], 10))), Step::FindPath);
    assert_eq!(s.alpha, vec![SCALE / 4, 3 * SCALE / 4]);
    assert!(!s.exact);
    // The same preference again switches to exact mode, then confirms.
    assert_eq!(s.on_solution(Some((vec![SCALE / 4 + 1, 3 * SCALE / 4], 10))), Step::FindPath);
    assert!(s.exact);
    assert_eq!(s.on_solution(Some((vec![SCALE / 4, 3 * SCALE / 4], 10))), Step::Accept);
    assert_eq!(s.shortcut.cost, vec![SCALE, SCALE]);
}

/// Contracts `V` over the given edges, deciding each pair with the only-path oracle.
fn contract_v(to: &[Edge<u32, u32>], from: &[Edge<u32, u32>]) -> (Vec<(usize, usize)>, Vec<mcch_contraction::Shortcut<u32, u32>>) {
    let (to, from) = (to.to_vec(), from.to_vec());
    let mut c = Contraction::begin(&to, &from).unwrap();
    let mut pairs = Vec::new();
    while let Some((i, j)) = c.next_pair() {
        pairs.push((i, j));
        let (search, step) = decide(&to[i], &from[j], &[]);
        let decided = if step == Step::Accept { search.map(|s| s.shortcut) } else { None };
        c.on_decision(decided);
    }
    (pairs, c.shortcuts)
}

#[test]
fn contraction_decides_each_pair_once() {
    let a = Edge::new(1, 7, V, units(&[2.0, 1.0]));
    let b = Edge::new(2, 8, V, units(&[1.0, 1.0]));
    let c = Edge::new(3, V, W, units(&[1.0, 2.0]));
    let d = Edge::new(4, V, 7, units(&[1.0, 1.0]));
    let (pairs, shortcuts) = contract_v(&[a, b], &[c, d]);
    assert_eq!(pairs, vec![(0, 0), (0, 1), (1, 0), (1, 1)]);
    // (a, d) is a self-loop on node 7; the other three pairs need shortcuts.
    let found: Vec<_> = shortcuts.iter().map(|s| (s.replaced_edges, s.from, s.to, s.cost.clone())).collect();
    assert_eq!(
        found,
        vec![
            ((1, 3), 7, W, units(&[3.0, 3.0])),
            ((2, 3), 8, W, units(&[2.0, 3.0])),
            ((2, 4), 8, 7, units(&[2.0, 2.0])),
        ]
    );
}

#[test]
fn contraction_matches_direct_engine_call() {
    let (e1, e2) = edges(&[2.0, 1.0], &[1.0, 2.0]);
    let (_, shortcuts) = contract_v(&[e1.clone()], &[e2.clone()]);
    let (search, step) = decide(&e1, &e2, &[]);
    assert_eq!(step, Step::Accept);
    let direct = search.unwrap().shortcut;
    assert_eq!(shortcuts.len(), 1);
    assert_eq!(shortcuts[0].cost, direct.cost);
    assert_eq!(shortcuts[0].replaced_edges, direct.replaced_edges);
}

#[test]
fn contraction_refuses_edges_that_do_not_meet() {
    let a = Edge::new(1, U, V, units(&[1.0, 1.0]));
    let c = Edge::new(3, W, U, units(&[1.0, 1.0]));
    assert!(Contraction::begin(&vec![a], &vec![c]).is_none());
}

#[test]
fn contraction_without_edges_is_empty() {
    let a = Edge::new(1, U, V, units(&[1.0, 1.0]));
    let (pairs, shortcuts) = contract_v(&[a], &[]);
    assert!(pairs.is_empty() && shortcuts.is_empty());
}

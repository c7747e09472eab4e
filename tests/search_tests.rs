use git_branchless_test::{SearchGraph, Status, Strategy, Search};

fn chain(n: usize) -> SearchGraph {
    let matrix: Vec<Vec<bool>> = (0..n).map(|a| (0..n).map(|d| a < d).collect()).collect();
    SearchGraph::from_matrix(matrix).unwrap()
}

#[test]
fn non_square_matrix_is_refused() {
    assert!(SearchGraph::from_matrix(vec![vec![false, true], vec![false]]).is_none());
    assert!(SearchGraph::from_matrix(Vec::new()).is_some());
}

#[test]
fn ancestors_and_descendants() {
    let g = chain(4);
    assert_eq!(g.ancestors(2), vec![0, 1, 2]);
    assert_eq!(g.descendants(2), vec![2, 3]);
    assert!(g.ancestor_of(0, 3));
    assert!(!g.ancestor_of(3, 0));
}

#[test]
fn linear_and_reverse_orders() {
    let s = Search::new(chain(5));
    assert_eq!(s.next_to_search(Strategy::Linear, 2), vec![0, 1]);
    assert_eq!(s.next_to_search(Strategy::LinearReverse, 3), vec![4, 3, 2]);
    assert_eq!(s.next_to_search(Strategy::Linear, 10), vec![0, 1, 2, 3, 4]);
    assert!(s.next_to_search(Strategy::Linear, 0).is_empty());
}

#[test]
fn binary_picks_midpoint() {
    let s = Search::new(chain(5));
    assert_eq!(s.next_to_search(Strategy::Binary, 1), vec![2]);
}

#[test]
fn success_implies_ancestors_failure_implies_descendants() {
    let mut s = Search::new(chain(6));
    s.notify(2, Status::Success);
    assert!(s.is_implied_success(0));
    assert!(s.is_implied_success(1));
    assert!(!s.is_undetermined(1));
    assert!(s.is_undetermined(3));
    s.notify(4, Status::Failure);
    assert!(s.is_implied_failure(5));
    assert_eq!(s.next_to_search(Strategy::Linear, 10), vec![3]);
    assert_eq!(s.success_bounds(), vec![2]);
    assert_eq!(s.failure_bounds(), vec![4]);
}

#[test]
fn indeterminate_prunes_nothing() {
    let mut s = Search::new(chain(3));
    s.notify(1, Status::Indeterminate);
    assert_eq!(s.next_to_search(Strategy::Linear, 10), vec![0, 2]);
    assert!(s.success_bounds().is_empty());
    assert!(s.failure_bounds().is_empty());
}

use indexmap::IndexMap;
use git_branchless_test::{
    classify_exit, counts_line, pluralize, tested_line, Tally, read_slot, record_for, search_order, summary_exit_code, tally, Action,
    Scheduler, SearchGraph, SearchStrategy, SlotContents, SlotOutcome, TestStatus,
    TestingAbortedError,
};

fn chain(n: usize) -> SearchGraph {
    let matrix: Vec<Vec<bool>> = (0..n).map(|a| (0..n).map(|d| a < d).collect()).collect();
    SearchGraph::from_matrix(matrix).unwrap()
}

fn unrelated(n: usize) -> SearchGraph {
    SearchGraph::from_matrix(vec![vec![false; n]; n]).unwrap()
}

#[test]
fn zero_commits_finish_at_once() {
    let (sched, queue) = Scheduler::new(unrelated(0), None, 1);
    assert!(queue.is_empty());
    assert!(sched.finished);
    let results = sched.results();
    assert_eq!(summary_exit_code(&tally(&results), false, false), 0);
}

#[test]
fn all_pass_without_search() {
    let (mut sched, queue) = Scheduler::new(unrelated(3), None, 2);
    assert_eq!(queue, vec![0, 1, 2]);
    // Workers finish out of order.
    for c in [2, 0] {
        assert_eq!(sched.on_result(c, classify_exit(Some(0), None, false)), Action::Wait);
    }
    assert_eq!(sched.on_result(1, classify_exit(Some(0), None, false)), Action::Finish);
    let results = sched.results();
    let order: Vec<usize> = results.iter().map(|(c, _)| *c).collect();
    assert_eq!(order, vec![0, 1, 2]);
    for (_, s) in &results {
        assert_eq!(*s, TestStatus::Passed { cached: false, fixed_tree_oid: None, interactive: false });
    }
    let t = tally(&results);
    assert_eq!((t.passed, t.failed, t.skipped, t.cached), (3, 0, 0, 0));
    assert_eq!(summary_exit_code(&t, false, false), 0);

    // Running again reads every result back from the cache.
    let mut again: IndexMap<usize, TestStatus> = IndexMap::new();
    for (c, s) in &results {
        let record = record_for(&"true".to_string(), 0, s, false);
        match read_slot(true, SlotContents::Record(record)) {
            SlotOutcome::Cached(status) => {
                again.insert(*c, status);
            }
            other => panic!("unexpected {other:?}"),
        }
    }
    for (_, s) in &again {
        assert_eq!(*s, TestStatus::Passed { cached: true, fixed_tree_oid: None, interactive: false });
    }
    assert_eq!(tally(&again).cached, 3);
}

#[test]
fn bisection_over_a_chain() {
    // Commits 0..=4 stand for A..=E; the command passes up to C.
    let strategy = search_order(SearchStrategy::Binary);
    let (mut sched, mut queue) = Scheduler::new(chain(5), Some(strategy), 1);
    let mut probed = Vec::new();
    loop {
        let commit = queue[0];
        probed.push(commit);
        let code = if commit <= 2 { 0 } else { 1 };
        match sched.on_result(commit, classify_exit(Some(code), None, false)) {
            Action::SetQueue(next) => queue = next,
            Action::Finish => break,
            Action::Wait => panic!("a search never waits"),
        }
    }
    assert_eq!(probed, vec![2, 3]);
    assert!(!probed.contains(&0) && !probed.contains(&4));
    let (success, failure) = sched.search_bounds();
    assert_eq!(success, vec![2]);
    assert_eq!(failure, vec![3]);
    assert_eq!(summary_exit_code(&tally(&sched.results()), true, false), 0);
}

#[test]
fn abort_stops_testing() {
    let (mut sched, queue) = Scheduler::new(unrelated(3), None, 1);
    assert_eq!(queue, vec![0, 1, 2]);
    assert_eq!(sched.on_result(0, classify_exit(Some(0), None, false)), Action::Wait);
    assert_eq!(sched.on_result(1, classify_exit(Some(127), None, false)), Action::Finish);
    assert_eq!(sched.aborted, Some(TestingAbortedError { commit: 1, exit_code: 127 }));
    let results = sched.results();
    assert_eq!(results.len(), 2);
    let (first, first_status) = results.get_index(0).unwrap();
    assert_eq!(*first, 0);
    assert!(matches!(first_status, TestStatus::Passed { .. }));
    assert_eq!(results.get_index(1), Some((&1, &TestStatus::Abort { exit_code: 127 })));
    assert!(results.get(&2).is_none());
    assert_eq!(summary_exit_code(&tally(&results), false, sched.aborted.is_some()), 1);
}

#[test]
fn failures_and_skips_fail_a_plain_run() {
    let mut results: IndexMap<usize, TestStatus> = IndexMap::new();
    results.insert(0, TestStatus::Passed { cached: true, fixed_tree_oid: None, interactive: false });
    results.insert(1, TestStatus::Indeterminate { exit_code: 125 });
    let t = tally(&results);
    assert_eq!((t.passed, t.failed, t.skipped, t.cached), (1, 0, 1, 1));
    assert_eq!(summary_exit_code(&t, false, false), 1);
    assert_eq!(summary_exit_code(&t, true, false), 0);
}

#[test]
fn linear_search_stops_at_first_failure() {
    let strategy = search_order(SearchStrategy::Linear);
    let (mut sched, mut queue) = Scheduler::new(chain(4), Some(strategy), 1);
    let mut probed = Vec::new();
    loop {
        let commit = queue[0];
        probed.push(commit);
        let code = if commit < 1 { 0 } else { 1 };
        match sched.on_result(commit, classify_exit(Some(code), None, false)) {
            Action::SetQueue(next) => queue = next,
            Action::Finish => break,
            Action::Wait => panic!("a search never waits"),
        }
    }
    assert_eq!(probed, vec![0, 1]);
}

#[test]
fn summary_lines() {
    assert_eq!(tested_line(1, "true"), "Tested 1 commit with true:");
    assert_eq!(tested_line(3, "make"), "Tested 3 commits with make:");
    let t = Tally { passed: 2, failed: 1, skipped: 0, cached: 1 };
    assert_eq!(counts_line(&t), "2 passed, 1 failed, 0 skipped");
    assert_eq!(pluralize(0, "child", "children"), "0 children");
}

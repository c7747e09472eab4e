//! The scheduler's decisions: which jobs to queue first, what to do with
//! each result that a worker posts, and the results in candidate order.
//!
//! The caller owns the queue and the workers: it queues what the scheduler
//! hands back and feeds it each result until told to finish.

use vstd::prelude::*;
use crate::search::{Search, SearchGraph, Status, Strategy};
use indexmap::IndexMap;
use crate::options::SearchStrategy;
use crate::ordered::{distinct_keys, insert_result, new_result_map, result_entries};
use crate::status::TestStatus;

verus! {

/// What the scheduler asks of the queue after a result.
#[derive(Debug, PartialEq, Eq)]
pub enum Action {
    /// Keep the queue as it is and wait for the next result.
    Wait,
    /// Replace what is pending with these candidates, in this order.
    SetQueue(Vec<usize>),
    /// Close the queue: testing is over.
    Finish,
}

/// Testing stopped because a command asked to abort.
#[derive(Clone, Copy, Debug, PartialEq, Eq, Structural)]
pub struct TestingAbortedError {
    /// The candidate whose command asked to abort.
    pub commit: usize,
    /// Its exit code.
    pub exit_code: i32,
}

/// The state of a run over the candidates `0..n`, oldest first.
pub struct Scheduler {
    pub search: Search,
    pub strategy: Option<Strategy>,
    pub jobs: usize,
    /// The outcome of each candidate, where one came back.
    pub outputs: Vec<Option<TestStatus>>,
    pub aborted: Option<TestingAbortedError>,
    pub finished: bool,
}

/// `entries` lists the outcomes of `outputs` by candidate, in candidate
/// order: each candidate with an outcome once, with that outcome.
pub open spec fn lists_outputs(entries: Seq<(usize, TestStatus)>, outputs: Seq<Option<TestStatus>>) -> bool {
    &&& forall|i: int, j: int| 0 <= i < j < entries.len() ==> entries[i].0 < entries[j].0
    &&& forall|i: int|
        0 <= i < entries.len() ==> #[trigger] entries[i].0 < outputs.len() && outputs[entries[i].0 as int]
            == Some(entries[i].1)
    &&& forall|c: int|
        0 <= c < outputs.len() && (#[trigger] outputs[c]) is Some ==> exists|i: int|
            0 <= i < entries.len() && entries[i].0 == c
}

proof fn lemma_listing_keys_agree(
    a: Seq<(usize, TestStatus)>,
    b: Seq<(usize, TestStatus)>,
    outputs: Seq<Option<TestStatus>>,
    i: int,
)
    requires
        lists_outputs(a, outputs),
        lists_outputs(b, outputs),
        0 <= i < a.len(),
        i < b.len(),
    ensures
        forall|j: int| 0 <= j <= i ==> #[trigger] a[j].0 == b[j].0,
    decreases i,
{
    if i > 0 {
        lemma_listing_keys_agree(a, b, outputs, i - 1);
    }
    let ka = a[i].0;
    let kb = b[i].0;
    if ka < kb {
        assert(outputs[ka as int] is Some);
        let j = choose|j: int| 0 <= j < b.len() && b[j].0 == ka;
        if j < i {
            assert(a[j].0 == b[j].0);
        }
    } else if kb < ka {
        assert(outputs[kb as int] is Some);
        let j = choose|j: int| 0 <= j < a.len() && a[j].0 == kb;
        if j < i {
            assert(a[j].0 == b[j].0);
        }
    }
}

/// The summary lists commits in candidate order whatever order the results
/// came in: a listing of the outcomes in candidate order is unique, so any
/// two runs that end with the same outcome per candidate list the same
/// entries.
pub proof fn lemma_results_in_candidate_order(
    a: Seq<(usize, TestStatus)>,
    b: Seq<(usize, TestStatus)>,
    outputs: Seq<Option<TestStatus>>,
)
    requires
        lists_outputs(a, outputs),
        lists_outputs(b, outputs),
    ensures
        a == b,
{
    if a.len() > 0 && b.len() > 0 {
        let m = if a.len() < b.len() { a.len() - 1 } else { b.len() - 1 };
        lemma_listing_keys_agree(a, b, outputs, m as int);
    }
    if a.len() < b.len() {
        let k = b[a.len() as int].0;
        assert(outputs[k as int] is Some);
        let j = choose|j: int| 0 <= j < a.len() && a[j].0 == k;
        assert(a[j].0 == b[j].0);
    } else if b.len() < a.len() {
        let k = a[b.len() as int].0;
        assert(outputs[k as int] is Some);
        let j = choose|j: int| 0 <= j < b.len() && b[j].0 == k;
        assert(a[j].0 == b[j].0);
    }
    assert forall|i: int| 0 <= i < a.len() implies a[i] == b[i] by {
        assert(a[i].0 == b[i].0);
        assert(outputs[a[i].0 as int] == Some(a[i].1));
        assert(outputs[b[i].0 as int] == Some(b[i].1));
    }
    assert(a =~= b);
}

/// Whether every candidate has an outcome.
pub open spec fn all_tested(outputs: Seq<Option<TestStatus>>) -> bool {
    forall|i: int| 0 <= i < outputs.len() ==> (#[trigger] outputs[i]) is Some
}

impl Scheduler {
    /// The number of candidates.
    pub open spec fn size(&self) -> nat {
        self.search.size()
    }

    /// The search and the outcomes cover the same candidates.
    pub open spec fn wf(&self) -> bool {
        self.search.wf() && self.outputs@.len() == self.search.size()
    }

    /// Starts a run over the candidates of `graph` with `jobs` workers.
    /// Without a strategy every candidate is queued in order; with one, the
    /// first `jobs` commits that the search would probe. A run over no
    /// candidates queues nothing and is finished at once.
    pub fn new(graph: SearchGraph, strategy: Option<Strategy>, jobs: usize) -> (r: (
        Scheduler,
        Vec<usize>,
    ))
        requires
            graph.wf(),
        ensures
            r.0.wf(),
            r.0.search.graph == graph,
            r.0.strategy == strategy,
            r.0.jobs == jobs,
            r.0.aborted is None,
            forall|i: int| 0 <= i < r.0.size() ==> (#[trigger] r.0.outputs@[i]) is None,
            forall|i: int| 0 <= i < r.0.size() ==> #[trigger] r.0.search.status(i) == Status::Untested,
            r.0.finished == (graph.size() == 0),
            strategy is None ==> r.1@ == Seq::new(graph.size(), |i: int| i as usize),
            strategy is Some ==> r.0.search.is_frontier(strategy->0, jobs, r.1@),
            graph.size() == 0 ==> r.1@.len() == 0,
    {
        let n = graph.len();
        let search = Search::new(graph);
        let mut outputs: Vec<Option<TestStatus>> = Vec::new();
        let mut all: Vec<usize> = Vec::new();
        let mut i: usize = 0;
        while i < n
            invariant
                i <= n,
                outputs@.len() == i,
                all@ == Seq::new(i as nat, |j: int| j as usize),
                forall|j: int| 0 <= j < i ==> (#[trigger] outputs@[j]) is None,
            decreases n - i,
        {
            outputs.push(None);
            all.push(i);
            assert(all@ =~= Seq::new((i + 1) as nat, |j: int| j as usize));
            i = i + 1;
        }
        let queue = match strategy {
            None => all,
            Some(s) => search.next_to_search(s, jobs),
        };
        proof {
            if n == 0 && strategy is Some {
                if queue@.len() > 0 {
                    assert(search.undetermined(queue@[0] as int));
                }
            }
        }
        let sched = Scheduler { search, strategy, jobs, outputs, aborted: None, finished: n == 0 };
        (sched, queue)
    }

    fn check_all_tested(&self) -> (r: bool)
        requires
            self.wf(),
        ensures
            r == all_tested(self.outputs@),
    {
        let n = self.outputs.len();
        let mut i: usize = 0;
        while i < n
            invariant
                n == self.outputs@.len(),
                i <= n,
                forall|j: int| 0 <= j < i ==> (#[trigger] self.outputs@[j]) is Some,
            decreases n - i,
        {
            if self.outputs[i].is_none() {
                return false;
            }
            i = i + 1;
        }
        true
    }

    /// Takes the outcome that a worker posted for `commit`. The search
    /// learns from it; it is kept as the commit's outcome. An abort finishes
    /// the run at once. Otherwise, without a strategy the run finishes once
    /// every candidate has an outcome; with one, the next commits that the
    /// search would probe replace the queue, and the run finishes when there
    /// are none.
    pub fn on_result(&mut self, commit: usize, status: TestStatus) -> (r: Action)
        requires
            old(self).wf(),
            commit < old(self).size(),
            !old(self).finished,
        ensures
            final(self).wf(),
            final(self).search.graph == old(self).search.graph,
            final(self).strategy == old(self).strategy,
            final(self).jobs == old(self).jobs,
            final(self).search.statuses@ == old(self).search.statuses@.update(
                commit as int,
                status.search_status_of(),
            ),
            final(self).outputs@ == old(self).outputs@.update(commit as int, Some(status)),
            status is Abort ==> r == Action::Finish && final(self).aborted == Some(
                TestingAbortedError { commit, exit_code: status->Abort_exit_code },
            ),
            !(status is Abort) ==> final(self).aborted == old(self).aborted,
            !(status is Abort) && old(self).strategy is None ==> (if all_tested(final(self).outputs@) {
                r == Action::Finish
            } else {
                r == Action::Wait
            }),
            !(status is Abort) && old(self).strategy is Some ==> match r {
                Action::SetQueue(q) => q@.len() > 0 && final(self).search.is_frontier(
                    old(self).strategy->0,
                    old(self).jobs,
                    q@,
                ),
                Action::Finish => final(self).search.is_frontier(
                    old(self).strategy->0,
                    old(self).jobs,
                    Seq::empty(),
                ),
                Action::Wait => false,
            },
            final(self).finished == (r == Action::Finish),
    {
        let search_status = status.search_status();
        self.search.notify(commit, search_status);
        let abort_code: Option<i32> = match &status {
            TestStatus::Abort { exit_code } => Some(*exit_code),
            _ => None,
        };
        self.outputs.set(commit, Some(status));
        if let Some(exit_code) = abort_code {
            self.aborted = Some(TestingAbortedError { commit, exit_code });
            self.finished = true;
            return Action::Finish;
        }
        match self.strategy {
            None => {
                if self.check_all_tested() {
                    self.finished = true;
                    Action::Finish
                } else {
                    Action::Wait
                }
            },
            Some(strategy) => {
                let next = self.search.next_to_search(strategy, self.jobs);
                if next.len() == 0 {
                    assert(next@ =~= Seq::<usize>::empty());
                    self.finished = true;
                    Action::Finish
                } else {
                    Action::SetQueue(next)
                }
            },
        }
    }

    /// The outcomes that came back, keyed by candidate, in candidate order
    /// whatever order the workers finished in.
    pub fn results(&self) -> (r: IndexMap<usize, TestStatus>)
        requires
            self.wf(),
        ensures
            distinct_keys(result_entries(r)),
            lists_outputs(result_entries(r), self.outputs@),
    {
        let n = self.outputs.len();
        let mut r = new_result_map();
        let mut c: usize = 0;
        while c < n
            invariant
                self.wf(),
                n == self.size(),
                c <= n,
                distinct_keys(result_entries(r)),
                forall|i: int, j: int|
                    0 <= i < j < result_entries(r).len() ==> result_entries(r)[i].0 < result_entries(
                        r,
                    )[j].0,
                forall|i: int|
                    0 <= i < result_entries(r).len() ==> #[trigger] result_entries(r)[i].0 < c
                        && self.outputs@[result_entries(r)[i].0 as int] == Some(result_entries(r)[i].1),
                forall|d: int|
                    0 <= d < c && (#[trigger] self.outputs@[d]) is Some ==> exists|i: int|
                        0 <= i < result_entries(r).len() && result_entries(r)[i].0 == d,
            decreases n - c,
        {
            match &self.outputs[c] {
                Some(status) => {
                    let ghost prev = result_entries(r);
                    assert(forall|i: int| 0 <= i < prev.len() ==> (#[trigger] prev[i]).0 != c);
                    insert_result(&mut r, c, status.duplicate());
                    proof {
                        assert(result_entries(r) == prev.push((c, *status)));
                        assert forall|d: int|
                            0 <= d < c + 1 && (#[trigger] self.outputs@[d]) is Some implies exists|i: int|
                            0 <= i < result_entries(r).len() && result_entries(r)[i].0 == d by {
                            if d < c {
                                let i = choose|i: int| 0 <= i < prev.len() && prev[i].0 == d;
                                assert(result_entries(r)[i].0 == d);
                            } else {
                                assert(result_entries(r)[prev.len() as int].0 == d);
                            }
                        }
                    }
                },
                None => {},
            }
            c = c + 1;
        }
        r
    }

    /// The search's bounds: the last passing commits and the first failing
    /// ones, each in candidate order.
    pub fn search_bounds(&self) -> (r: (Vec<usize>, Vec<usize>))
        requires
            self.wf(),
        ensures
            forall|i: int| 0 <= i < r.0@.len() ==> self.search.is_success_bound(#[trigger] r.0@[i] as int),
            forall|x: int| #[trigger] self.search.is_success_bound(x) ==> r.0@.contains(x as usize),
            forall|i: int, j: int| 0 <= i < j < r.0@.len() ==> r.0@[i] < r.0@[j],
            forall|i: int| 0 <= i < r.1@.len() ==> self.search.is_failure_bound(#[trigger] r.1@[i] as int),
            forall|x: int| #[trigger] self.search.is_failure_bound(x) ==> r.1@.contains(x as usize),
            forall|i: int, j: int| 0 <= i < j < r.1@.len() ==> r.1@[i] < r.1@[j],
    {
        (self.search.success_bounds(), self.search.failure_bounds())
    }
}

/// The search order for a search strategy of the options.
pub fn search_order(strategy: SearchStrategy) -> (r: Strategy)
    ensures
        strategy == SearchStrategy::Linear ==> r == Strategy::Linear,
        strategy == SearchStrategy::Reverse ==> r == Strategy::LinearReverse,
        strategy == SearchStrategy::Binary ==> r == Strategy::Binary,
{
    match strategy {
        SearchStrategy::Linear => Strategy::Linear,
        SearchStrategy::Reverse => Strategy::LinearReverse,
        SearchStrategy::Binary => Strategy::Binary,
    }
}

} // verus!

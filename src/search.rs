//! The search over the candidate commits: which commits are implied by the
//! observations so far, the frontier of the observations, and which commits
//! to probe next under each strategy.
//!
//! Candidates are numbered by their position in the sorted candidate list,
//! oldest first.

use vstd::prelude::*;

verus! {

/// The order in which the search probes the commits it still needs.
#[derive(Clone, Copy, Debug, PartialEq, Eq, Structural)]
pub enum Strategy {
    /// Oldest candidate first.
    Linear,
    /// Newest candidate first.
    LinearReverse,
    /// The midpoint of the ambiguous region first.
    Binary,
}

/// What is known of one candidate.
#[derive(Clone, Copy, Debug, PartialEq, Eq, Structural)]
pub enum Status {
    /// Not observed yet.
    Untested,
    /// The command passed.
    Success,
    /// The command failed.
    Failure,
    /// The command said nothing about this commit.
    Indeterminate,
}

/// The ancestry relation among the candidates: `ancestry[a][d]` holds when
/// candidate `a` is a proper ancestor of candidate `d` in the commit graph.
/// Every candidate also counts as its own ancestor.
pub struct SearchGraph {
    pub ancestry: Vec<Vec<bool>>,
}

proof fn lemma_push_contains(prev: Seq<usize>, x: usize, b: usize)
    ensures
        prev.push(x).contains(b) <==> (prev.contains(b) || b == x),
{
    if prev.push(x).contains(b) && b != x {
        let k = choose|k: int| 0 <= k < prev.len() + 1 && prev.push(x)[k] == b;
        assert(prev[k] == b);
    }
    if prev.contains(b) {
        let k = choose|k: int| 0 <= k < prev.len() && prev[k] == b;
        assert(prev.push(x)[k] == b);
    }
    if b == x {
        assert(prev.push(x)[prev.len() as int] == b);
    }
}

impl SearchGraph {
    /// The number of candidates.
    pub open spec fn size(&self) -> nat {
        self.ancestry@.len()
    }

    /// The relation is a square matrix.
    pub open spec fn wf(&self) -> bool {
        forall|i: int| 0 <= i < self.size() ==> #[trigger] self.ancestry@[i]@.len() == self.size()
    }

    /// Whether `a` is an ancestor of `d`, or `d` itself.
    pub open spec fn is_ancestor(&self, a: int, d: int) -> bool {
        a == d || self.ancestry@[a]@[d]
    }

    /// Takes a matrix of the proper-ancestor relation; `None` when it is
    /// not square.
    pub fn from_matrix(ancestry: Vec<Vec<bool>>) -> (r: Option<SearchGraph>)
        ensures
            r is Some <==> (forall|i: int|
                0 <= i < ancestry@.len() ==> #[trigger] ancestry@[i]@.len() == ancestry@.len()),
            r is Some ==> r->0.ancestry@ == ancestry@ && r->0.wf(),
    {
        let n = ancestry.len();
        let mut i: usize = 0;
        while i < n
            invariant
                n == ancestry@.len(),
                i <= n,
                forall|j: int| 0 <= j < i ==> #[trigger] ancestry@[j]@.len() == n,
            decreases n - i,
        {
            if ancestry[i].len() != n {
                return None;
            }
            i = i + 1;
        }
        Some(SearchGraph { ancestry })
    }

    /// The number of candidates.
    pub fn len(&self) -> (r: usize)
        ensures
            r == self.size(),
    {
        self.ancestry.len()
    }

    /// Whether candidate `a` is an ancestor of candidate `d`, or `d` itself.
    pub fn ancestor_of(&self, a: usize, d: usize) -> (r: bool)
        requires
            self.wf(),
            a < self.size(),
            d < self.size(),
        ensures
            r == self.is_ancestor(a as int, d as int),
    {
        a == d || self.ancestry[a][d]
    }

    /// The candidates that are ancestors of `x`, `x` included, in increasing
    /// order.
    pub fn ancestors(&self, x: usize) -> (r: Vec<usize>)
        requires
            self.wf(),
            x < self.size(),
        ensures
            forall|i: int, j: int| 0 <= i < j < r@.len() ==> r@[i] < r@[j],
            forall|i: int| 0 <= i < r@.len() ==> #[trigger] r@[i] < self.size(),
            forall|a: int|
                0 <= a < self.size() ==> (r@.contains(a as usize) <==> self.is_ancestor(a, x as int)),
    {
        let n = self.len();
        let mut r: Vec<usize> = Vec::new();
        let mut a: usize = 0;
        while a < n
            invariant
                self.wf(),
                n == self.size(),
                x < n,
                a <= n,
                forall|i: int, j: int| 0 <= i < j < r@.len() ==> r@[i] < r@[j],
                forall|i: int| 0 <= i < r@.len() ==> #[trigger] r@[i] < a,
                forall|b: int|
                    0 <= b < a ==> (r@.contains(b as usize) <==> self.is_ancestor(b, x as int)),
            decreases n - a,
        {
            let ghost prev = r@;
            if self.ancestor_of(a, x) {
                r.push(a);
            }
            assert forall|b: int| 0 <= b < a + 1 implies (r@.contains(b as usize)
                <==> self.is_ancestor(b, x as int)) by {
                lemma_push_contains(prev, a, b as usize);
                if b == a && prev.contains(b as usize) {
                    let k = choose|k: int| 0 <= k < prev.len() && prev[k] == b as usize;
                    assert(prev[k] < a);
                }
            }
            a = a + 1;
        }
        r
    }

    /// The candidates that are descendants of `x`, `x` included, in
    /// increasing order.
    pub fn descendants(&self, x: usize) -> (r: Vec<usize>)
        requires
            self.wf(),
            x < self.size(),
        ensures
            forall|i: int, j: int| 0 <= i < j < r@.len() ==> r@[i] < r@[j],
            forall|i: int| 0 <= i < r@.len() ==> #[trigger] r@[i] < self.size(),
            forall|d: int|
                0 <= d < self.size() ==> (r@.contains(d as usize) <==> self.is_ancestor(x as int, d)),
    {
        let n = self.len();
        let mut r: Vec<usize> = Vec::new();
        let mut d: usize = 0;
        while d < n
            invariant
                self.wf(),
                n == self.size(),
                x < n,
                d <= n,
                forall|i: int, j: int| 0 <= i < j < r@.len() ==> r@[i] < r@[j],
                forall|i: int| 0 <= i < r@.len() ==> #[trigger] r@[i] < d,
                forall|b: int|
                    0 <= b < d ==> (r@.contains(b as usize) <==> self.is_ancestor(x as int, b)),
            decreases n - d,
        {
            let ghost prev = r@;
            if self.ancestor_of(x, d) {
                r.push(d);
            }
            assert forall|b: int| 0 <= b < d + 1 implies (r@.contains(b as usize)
                <==> self.is_ancestor(x as int, b)) by {
                lemma_push_contains(prev, d, b as usize);
                if b == d && prev.contains(b as usize) {
                    let k = choose|k: int| 0 <= k < prev.len() && prev[k] == b as usize;
                    assert(prev[k] < d);
                }
            }
            d = d + 1;
        }
        r
    }
}

/// The observations made so far over a candidate graph.
pub struct Search {
    pub graph: SearchGraph,
    pub statuses: Vec<Status>,
}

/// `|2c - u|`: how far a split with `c` commits on one side lies from the
/// middle of `u` commits.
pub open spec fn split_distance(c: nat, u: nat) -> nat {
    if 2 * c >= u {
        (2 * c - u) as nat
    } else {
        (u - 2 * c) as nat
    }
}

impl Search {
    /// The number of candidates.
    pub open spec fn size(&self) -> nat {
        self.graph.size()
    }

    /// One status per candidate over a well-formed graph.
    pub open spec fn wf(&self) -> bool {
        self.graph.wf() && self.statuses@.len() == self.graph.size()
    }

    pub open spec fn status(&self, x: int) -> Status {
        self.statuses@[x]
    }

    /// Some observed success has `x` among its ancestors.
    pub open spec fn implied_success(&self, x: int) -> bool {
        exists|s: int|
            0 <= s < self.size() && self.status(s) == Status::Success && #[trigger] self.graph.is_ancestor(
                x,
                s,
            )
    }

    /// Some observed failure has `x` among its descendants.
    pub open spec fn implied_failure(&self, x: int) -> bool {
        exists|f: int|
            0 <= f < self.size() && self.status(f) == Status::Failure && #[trigger] self.graph.is_ancestor(
                f,
                x,
            )
    }

    /// A candidate that is still worth probing: not observed, and implied
    /// neither way.
    pub open spec fn undetermined(&self, x: int) -> bool {
        &&& 0 <= x < self.size()
        &&& self.status(x) == Status::Untested
        &&& !self.implied_success(x)
        &&& !self.implied_failure(x)
    }

    /// The number of undetermined candidates below `i`.
    pub open spec fn undetermined_below(&self, i: int) -> nat
        decreases i,
    {
        if i <= 0 {
            0
        } else {
            self.undetermined_below(i - 1) + if self.undetermined(i - 1) {
                1nat
            } else {
                0nat
            }
        }
    }

    /// The number of undetermined candidates.
    pub open spec fn num_undetermined(&self) -> nat {
        self.undetermined_below(self.size() as int)
    }

    /// The number of undetermined ancestors of `x` below `i`.
    pub open spec fn ambiguous_ancestors_below(&self, x: int, i: int) -> nat
        decreases i,
    {
        if i <= 0 {
            0
        } else {
            self.ambiguous_ancestors_below(x, i - 1) + if self.undetermined(i - 1)
                && self.graph.is_ancestor(i - 1, x) {
                1nat
            } else {
                0nat
            }
        }
    }

    /// The number of undetermined ancestors of `x`, `x` included.
    pub open spec fn ambiguous_ancestors(&self, x: int) -> nat {
        self.ambiguous_ancestors_below(x, self.size() as int)
    }

    /// How far probing `x` lies from halving the undetermined region.
    pub open spec fn distance(&self, x: int) -> nat {
        split_distance(self.ambiguous_ancestors(x), self.num_undetermined())
    }

    /// Whether `strategy` probes `a` before `b`. Binary search prefers the
    /// split nearest the middle, then the larger set of undetermined
    /// ancestors, then the older commit.
    pub open spec fn probes_before(&self, strategy: Strategy, a: int, b: int) -> bool {
        match strategy {
            Strategy::Linear => a < b,
            Strategy::LinearReverse => a > b,
            Strategy::Binary => {
                ||| self.distance(a) < self.distance(b)
                ||| (self.distance(a) == self.distance(b) && self.ambiguous_ancestors(a)
                    > self.ambiguous_ancestors(b))
                ||| (self.distance(a) == self.distance(b) && self.ambiguous_ancestors(a)
                    == self.ambiguous_ancestors(b) && a < b)
            },
        }
    }

    /// `r` is the first `k` undetermined commits in the order in which
    /// `strategy` probes them, or all of them when there are fewer: only
    /// undetermined commits, in probing order, none skipped, and fewer than
    /// `k` only when every undetermined commit is named. Probing order is a
    /// strict total order, so at most one sequence meets this (see
    /// `lemma_frontier_unique`).
    pub open spec fn is_frontier(&self, strategy: Strategy, k: usize, r: Seq<usize>) -> bool {
        &&& r.len() <= k
        &&& forall|i: int| 0 <= i < r.len() ==> self.undetermined(#[trigger] r[i] as int)
        &&& forall|i: int, j: int|
            0 <= i < j < r.len() ==> self.probes_before(strategy, r[i] as int, r[j] as int)
        &&& forall|x: int|
            self.undetermined(x) && !r.contains(x as usize) ==> forall|i: int|
                0 <= i < r.len() ==> self.probes_before(strategy, #[trigger] r[i] as int, x)
        &&& r.len() < k ==> forall|x: int| #[trigger] self.undetermined(x) ==> r.contains(x as usize)
    }

    /// An observed success that no other observed success descends from.
    pub open spec fn is_success_bound(&self, x: int) -> bool {
        &&& 0 <= x < self.size()
        &&& self.status(x) == Status::Success
        &&& forall|t: int|
            0 <= t < self.size() && t != x && self.status(t) == Status::Success
                ==> !#[trigger] self.graph.is_ancestor(x, t)
    }

    /// An observed failure that descends from no other observed failure.
    pub open spec fn is_failure_bound(&self, x: int) -> bool {
        &&& 0 <= x < self.size()
        &&& self.status(x) == Status::Failure
        &&& forall|t: int|
            0 <= t < self.size() && t != x && self.status(t) == Status::Failure
                ==> !#[trigger] self.graph.is_ancestor(t, x)
    }

    /// A search with nothing observed yet.
    pub fn new(graph: SearchGraph) -> (r: Search)
        requires
            graph.wf(),
        ensures
            r.wf(),
            r.graph == graph,
            forall|i: int| 0 <= i < r.size() ==> #[trigger] r.status(i) == Status::Untested,
    {
        let n = graph.len();
        let mut statuses: Vec<Status> = Vec::new();
        let mut i: usize = 0;
        while i < n
            invariant
                i <= n,
                statuses@.len() == i,
                forall|j: int| 0 <= j < i ==> #[trigger] statuses@[j] == Status::Untested,
            decreases n - i,
        {
            statuses.push(Status::Untested);
            i = i + 1;
        }
        Search { graph, statuses }
    }

    /// Records what was observed of candidate `x`.
    pub fn notify(&mut self, x: usize, status: Status)
        requires
            old(self).wf(),
            x < old(self).size(),
        ensures
            final(self).wf(),
            final(self).graph == old(self).graph,
            final(self).statuses@ == old(self).statuses@.update(x as int, status),
    {
        self.statuses.set(x, status);
    }

    /// Whether `x` is implied to pass by an observed success.
    pub fn is_implied_success(&self, x: usize) -> (r: bool)
        requires
            self.wf(),
            x < self.size(),
        ensures
            r == self.implied_success(x as int),
    {
        let n = self.graph.len();
        let mut s: usize = 0;
        while s < n
            invariant
                self.wf(),
                n == self.size(),
                x < n,
                s <= n,
                forall|t: int|
                    0 <= t < s ==> !(self.status(t) == Status::Success
                        && #[trigger] self.graph.is_ancestor(x as int, t)),
            decreases n - s,
        {
            if self.statuses[s] == Status::Success && self.graph.ancestor_of(x, s) {
                return true;
            }
            s = s + 1;
        }
        false
    }

    /// Whether `x` is implied to fail by an observed failure.
    pub fn is_implied_failure(&self, x: usize) -> (r: bool)
        requires
            self.wf(),
            x < self.size(),
        ensures
            r == self.implied_failure(x as int),
    {
        let n = self.graph.len();
        let mut f: usize = 0;
        while f < n
            invariant
                self.wf(),
                n == self.size(),
                x < n,
                f <= n,
                forall|t: int|
                    0 <= t < f ==> !(self.status(t) == Status::Failure
                        && #[trigger] self.graph.is_ancestor(t, x as int)),
            decreases n - f,
        {
            if self.statuses[f] == Status::Failure && self.graph.ancestor_of(f, x) {
                return true;
            }
            f = f + 1;
        }
        false
    }

    /// Whether `x` is still worth probing.
    pub fn is_undetermined(&self, x: usize) -> (r: bool)
        requires
            self.wf(),
            x < self.size(),
        ensures
            r == self.undetermined(x as int),
    {
        self.statuses[x] == Status::Untested && !self.is_implied_success(x)
            && !self.is_implied_failure(x)
    }

    fn undetermined_flags(&self) -> (r: Vec<bool>)
        requires
            self.wf(),
        ensures
            r@.len() == self.size(),
            forall|i: int| 0 <= i < self.size() ==> #[trigger] r@[i] == self.undetermined(i),
    {
        let n = self.graph.len();
        let mut r: Vec<bool> = Vec::new();
        let mut i: usize = 0;
        while i < n
            invariant
                self.wf(),
                n == self.size(),
                i <= n,
                r@.len() == i,
                forall|j: int| 0 <= j < i ==> #[trigger] r@[j] == self.undetermined(j),
            decreases n - i,
        {
            let u = self.is_undetermined(i);
            r.push(u);
            i = i + 1;
        }
        r
    }

    fn count_undetermined(&self, flags: &Vec<bool>) -> (r: usize)
        requires
            self.wf(),
            flags@.len() == self.size(),
            forall|i: int| 0 <= i < self.size() ==> #[trigger] flags@[i] == self.undetermined(i),
        ensures
            r == self.num_undetermined(),
            r <= self.size(),
    {
        let n = flags.len();
        let mut c: usize = 0;
        let mut i: usize = 0;
        while i < n
            invariant
                self.wf(),
                n == self.size(),
                flags@.len() == n,
                forall|j: int| 0 <= j < n ==> #[trigger] flags@[j] == self.undetermined(j),
                i <= n,
                c == self.undetermined_below(i as int),
                c <= i,
            decreases n - i,
        {
            if flags[i] {
                c = c + 1;
            }
            i = i + 1;
        }
        c
    }

    fn count_ambiguous_ancestors(&self, flags: &Vec<bool>, x: usize) -> (r: usize)
        requires
            self.wf(),
            x < self.size(),
            flags@.len() == self.size(),
            forall|i: int| 0 <= i < self.size() ==> #[trigger] flags@[i] == self.undetermined(i),
        ensures
            r == self.ambiguous_ancestors(x as int),
            r <= self.size(),
    {
        let n = flags.len();
        let mut c: usize = 0;
        let mut i: usize = 0;
        while i < n
            invariant
                self.wf(),
                n == self.size(),
                x < n,
                flags@.len() == n,
                forall|j: int| 0 <= j < n ==> #[trigger] flags@[j] == self.undetermined(j),
                i <= n,
                c == self.ambiguous_ancestors_below(x as int, i as int),
                c <= i,
            decreases n - i,
        {
            if flags[i] && self.graph.ancestor_of(i, x) {
                c = c + 1;
            }
            i = i + 1;
        }
        c
    }

    fn probes_before_exec(
        &self,
        strategy: Strategy,
        a: usize,
        b: usize,
        counts: &Vec<usize>,
        u: usize,
    ) -> (r: bool)
        requires
            self.wf(),
            a < self.size(),
            b < self.size(),
            counts@.len() == self.size(),
            forall|i: int|
                0 <= i < self.size() ==> #[trigger] counts@[i] == self.ambiguous_ancestors(i),
            u == self.num_undetermined(),
        ensures
            r == self.probes_before(strategy, a as int, b as int),
    {
        match strategy {
            Strategy::Linear => a < b,
            Strategy::LinearReverse => a > b,
            Strategy::Binary => {
                let ca = counts[a] as u128;
                let cb = counts[b] as u128;
                let uu = u as u128;
                let da = if 2 * ca >= uu {
                    2 * ca - uu
                } else {
                    uu - 2 * ca
                };
                let db = if 2 * cb >= uu {
                    2 * cb - uu
                } else {
                    uu - 2 * cb
                };
                da < db || (da == db && ca > cb) || (da == db && ca == cb && a < b)
            },
        }
    }

    /// The commits to probe next, at most `k` of them, in the order in which
    /// `strategy` probes them. Only undetermined commits are named; fewer
    /// than `k` only when every undetermined commit is named; an empty
    /// result means that the search is complete.
    pub fn next_to_search(&self, strategy: Strategy, k: usize) -> (r: Vec<usize>)
        requires
            self.wf(),
        ensures
            self.is_frontier(strategy, k, r@),
    {
        let n = self.graph.len();
        let flags = self.undetermined_flags();
        let u = self.count_undetermined(&flags);
        let mut counts: Vec<usize> = Vec::new();
        let mut i: usize = 0;
        while i < n
            invariant
                self.wf(),
                n == self.size(),
                flags@.len() == n,
                forall|j: int| 0 <= j < n ==> #[trigger] flags@[j] == self.undetermined(j),
                i <= n,
                counts@.len() == i,
                forall|j: int| 0 <= j < i ==> #[trigger] counts@[j] == self.ambiguous_ancestors(j),
            decreases n - i,
        {
            let c = self.count_ambiguous_ancestors(&flags, i);
            counts.push(c);
            i = i + 1;
        }
        let mut chosen: Vec<bool> = Vec::new();
        let mut i: usize = 0;
        while i < n
            invariant
                i <= n,
                chosen@.len() == i,
                forall|j: int| 0 <= j < i ==> !#[trigger] chosen@[j],
            decreases n - i,
        {
            chosen.push(false);
            i = i + 1;
        }
        let mut r: Vec<usize> = Vec::new();
        while r.len() < k
            invariant
                self.wf(),
                n == self.size(),
                flags@.len() == n,
                forall|j: int| 0 <= j < n ==> #[trigger] flags@[j] == self.undetermined(j),
                counts@.len() == n,
                forall|j: int| 0 <= j < n ==> #[trigger] counts@[j] == self.ambiguous_ancestors(j),
                u == self.num_undetermined(),
                chosen@.len() == n,
                r@.len() <= k,
                forall|j: int| 0 <= j < r@.len() ==> self.undetermined(#[trigger] r@[j] as int),
                forall|x: int| 0 <= x < n ==> (#[trigger] chosen@[x] <==> r@.contains(x as usize)),
                forall|a: int, b: int|
                    0 <= a < b < r@.len() ==> self.probes_before(strategy, r@[a] as int, r@[b] as int),
                forall|x: int|
                    self.undetermined(x) && !r@.contains(x as usize) ==> forall|j: int|
                        0 <= j < r@.len() ==> self.probes_before(strategy, #[trigger] r@[j] as int, x),
            decreases k - r@.len(),
        {
            // The first candidate in probing order among those not chosen yet.
            let mut best: usize = n;
            let mut y: usize = 0;
            while y < n
                invariant
                    self.wf(),
                    n == self.size(),
                    flags@.len() == n,
                    forall|j: int| 0 <= j < n ==> #[trigger] flags@[j] == self.undetermined(j),
                    counts@.len() == n,
                    forall|j: int|
                        0 <= j < n ==> #[trigger] counts@[j] == self.ambiguous_ancestors(j),
                    u == self.num_undetermined(),
                    chosen@.len() == n,
                    y <= n,
                    best == n || (best < y && flags@[best as int] && !chosen@[best as int]),
                    best == n ==> forall|z: int| 0 <= z < y ==> !(flags@[z] && !chosen@[z]),
                    best < n ==> forall|z: int|
                        0 <= z < y && flags@[z] && !chosen@[z] && z != best
                            ==> #[trigger] self.probes_before(strategy, best as int, z),
                decreases n - y,
            {
                if flags[y] && !chosen[y] {
                    if best == n || self.probes_before_exec(strategy, y, best, &counts, u) {
                        proof {
                            if best < n {
                                assert forall|z: int|
                                    0 <= z < y + 1 && flags@[z] && !chosen@[z] && z != y
                                        implies #[trigger] self.probes_before(strategy, y as int, z) by {
                                    if z != best {
                                        self.lemma_probes_before_order(strategy, y as int, best as int, z);
                                    }
                                }
                            }
                        }
                        best = y;
                    } else {
                        proof {
                            self.lemma_probes_before_order(strategy, y as int, best as int, y as int);
                        }
                    }
                }
                y = y + 1;
            }
            if best == n {
                proof {
                    assert forall|x: int| #[trigger] self.undetermined(x) implies r@.contains(
                        x as usize,
                    ) by {
                        assert(flags@[x]);
                        assert(chosen@[x]);
                    }
                }
                return r;
            }
            proof {
                assert(!r@.contains(best as usize));
            }
            let ghost prev = r@;
            r.push(best);
            chosen.set(best, true);
            proof {
                assert forall|x: int| 0 <= x < n implies (#[trigger] chosen@[x] <==> r@.contains(
                    x as usize,
                )) by {
                    lemma_push_contains(prev, best, x as usize);
                }
                assert forall|x: int|
                    self.undetermined(x) && !r@.contains(x as usize) implies forall|j: int|
                    0 <= j < r@.len() ==> self.probes_before(strategy, #[trigger] r@[j] as int, x) by {
                    lemma_push_contains(prev, best, x as usize);
                    assert(flags@[x]);
                    assert(!chosen@[x]);
                }
            }
        }
        r
    }

    proof fn lemma_frontiers_agree_upto(&self, strategy: Strategy, k: usize, a: Seq<usize>, b: Seq<usize>, i: int)
        requires
            self.is_frontier(strategy, k, a),
            self.is_frontier(strategy, k, b),
            0 <= i < a.len(),
            i < b.len(),
        ensures
            forall|j: int| 0 <= j <= i ==> #[trigger] a[j] == b[j],
        decreases i,
    {
        if i > 0 {
            self.lemma_frontiers_agree_upto(strategy, k, a, b, i - 1);
        }
        let x = a[i as int] as int;
        let y = b[i as int] as int;
        assert forall|j: int| 0 <= j < i implies #[trigger] b[j] == a[j] by {
            assert(a[j] == b[j]);
        }
        self.lemma_one_way(strategy, k, a, b, i);
        self.lemma_one_way(strategy, k, b, a, i);
        self.lemma_probes_before_order(strategy, x, y, x);
    }

    /// Where two frontiers agree before position `i`, the first does not
    /// probe its `i`-th commit before the second's.
    proof fn lemma_one_way(&self, strategy: Strategy, k: usize, a: Seq<usize>, b: Seq<usize>, i: int)
        requires
            self.is_frontier(strategy, k, a),
            self.is_frontier(strategy, k, b),
            0 <= i < a.len(),
            i < b.len(),
            forall|j: int| 0 <= j < i ==> #[trigger] a[j] == b[j],
        ensures
            !self.probes_before(strategy, a[i] as int, b[i] as int),
    {
        let x = a[i] as int;
        let y = b[i] as int;
        self.lemma_probes_before_order(strategy, x, y, x);
        if self.probes_before(strategy, x, y) {
            if b.contains(x as usize) {
                let j = choose|j: int| 0 <= j < b.len() && b[j] == x as usize;
                if j < i {
                    assert(a[j] == b[j]);
                    assert(self.probes_before(strategy, a[j] as int, a[i] as int));
                    self.lemma_probes_before_order(strategy, x, x, x);
                } else if j > i {
                    assert(self.probes_before(strategy, b[i] as int, b[j] as int));
                }
            } else {
                assert(self.undetermined(x));
                assert(self.probes_before(strategy, b[i] as int, x));
            }
        }
    }

    /// Two frontiers of the same size and strategy are the same sequence.
    pub proof fn lemma_frontier_unique(&self, strategy: Strategy, k: usize, a: Seq<usize>, b: Seq<usize>)
        requires
            self.is_frontier(strategy, k, a),
            self.is_frontier(strategy, k, b),
        ensures
            a == b,
    {
        if a.len() > 0 && b.len() > 0 {
            let m = if a.len() < b.len() { a.len() - 1 } else { b.len() - 1 };
            self.lemma_frontiers_agree_upto(strategy, k, a, b, m as int);
        }
        if a.len() < b.len() {
            let x = b[a.len() as int];
            assert(self.undetermined(x as int));
            let j = choose|j: int| 0 <= j < a.len() && a[j] == x;
            assert(a[j] == b[j]);
            assert(self.probes_before(strategy, b[j] as int, b[a.len() as int] as int));
            self.lemma_probes_before_order(strategy, x as int, x as int, x as int);
        } else if b.len() < a.len() {
            let x = a[b.len() as int];
            assert(self.undetermined(x as int));
            let j = choose|j: int| 0 <= j < b.len() && b[j] == x;
            assert(a[j] == b[j]);
            assert(self.probes_before(strategy, a[j] as int, a[b.len() as int] as int));
            self.lemma_probes_before_order(strategy, x as int, x as int, x as int);
        }
        assert(a =~= b);
    }

    /// The relation `probes_before` is a strict total order: irreflexive,
    /// transitive, and it relates any two distinct candidates one way.
    pub proof fn lemma_probes_before_order(&self, strategy: Strategy, a: int, b: int, c: int)
        ensures
            !self.probes_before(strategy, a, a),
            self.probes_before(strategy, a, b) && self.probes_before(strategy, b, c)
                ==> self.probes_before(strategy, a, c),
            a != b ==> (self.probes_before(strategy, a, b) || self.probes_before(strategy, b, a)),
            self.probes_before(strategy, a, b) ==> !self.probes_before(strategy, b, a),
    {
    }

    fn check_success_bound(&self, x: usize) -> (r: bool)
        requires
            self.wf(),
            x < self.size(),
        ensures
            r == self.is_success_bound(x as int),
    {
        if self.statuses[x] != Status::Success {
            return false;
        }
        let n = self.graph.len();
        let mut t: usize = 0;
        while t < n
            invariant
                self.wf(),
                n == self.size(),
                x < n,
                self.status(x as int) == Status::Success,
                t <= n,
                forall|v: int|
                    0 <= v < t && v != x && self.status(v) == Status::Success
                        ==> !#[trigger] self.graph.is_ancestor(x as int, v),
            decreases n - t,
        {
            if t != x && self.statuses[t] == Status::Success && self.graph.ancestor_of(x, t) {
                return false;
            }
            t = t + 1;
        }
        true
    }

    /// The observed successes that no other observed success descends from, in
    /// increasing order.
    pub fn success_bounds(&self) -> (r: Vec<usize>)
        requires
            self.wf(),
        ensures
            forall|i: int, j: int| 0 <= i < j < r@.len() ==> r@[i] < r@[j],
            forall|i: int| 0 <= i < r@.len() ==> self.is_success_bound(#[trigger] r@[i] as int),
            forall|x: int| #[trigger] self.is_success_bound(x) ==> r@.contains(x as usize),
    {
        let n = self.graph.len();
        let mut r: Vec<usize> = Vec::new();
        let mut x: usize = 0;
        while x < n
            invariant
                self.wf(),
                n == self.size(),
                x <= n,
                forall|i: int, j: int| 0 <= i < j < r@.len() ==> r@[i] < r@[j],
                forall|i: int| 0 <= i < r@.len() ==> #[trigger] r@[i] < x,
                forall|i: int| 0 <= i < r@.len() ==> self.is_success_bound(#[trigger] r@[i] as int),
                forall|v: int| 0 <= v < x && #[trigger] self.is_success_bound(v) ==> r@.contains(v as usize),
            decreases n - x,
        {
            let ghost prev = r@;
            if self.check_success_bound(x) {
                r.push(x);
            }
            assert forall|v: int| 0 <= v < x + 1 && #[trigger] self.is_success_bound(v) implies r@.contains(
                v as usize,
            ) by {
                lemma_push_contains(prev, x, v as usize);
            }
            x = x + 1;
        }
        r
    }

    fn check_failure_bound(&self, x: usize) -> (r: bool)
        requires
            self.wf(),
            x < self.size(),
        ensures
            r == self.is_failure_bound(x as int),
    {
        if self.statuses[x] != Status::Failure {
            return false;
        }
        let n = self.graph.len();
        let mut t: usize = 0;
        while t < n
            invariant
                self.wf(),
                n == self.size(),
                x < n,
                self.status(x as int) == Status::Failure,
                t <= n,
                forall|v: int|
                    0 <= v < t && v != x && self.status(v) == Status::Failure
                        ==> !#[trigger] self.graph.is_ancestor(v, x as int),
            decreases n - t,
        {
            if t != x && self.statuses[t] == Status::Failure && self.graph.ancestor_of(t, x) {
                return false;
            }
            t = t + 1;
        }
        true
    }

    /// The observed failures that descend from no other observed failure, in
    /// increasing order.
    pub fn failure_bounds(&self) -> (r: Vec<usize>)
        requires
            self.wf(),
        ensures
            forall|i: int, j: int| 0 <= i < j < r@.len() ==> r@[i] < r@[j],
            forall|i: int| 0 <= i < r@.len() ==> self.is_failure_bound(#[trigger] r@[i] as int),
            forall|x: int| #[trigger] self.is_failure_bound(x) ==> r@.contains(x as usize),
    {
        let n = self.graph.len();
        let mut r: Vec<usize> = Vec::new();
        let mut x: usize = 0;
        while x < n
            invariant
                self.wf(),
                n == self.size(),
                x <= n,
                forall|i: int, j: int| 0 <= i < j < r@.len() ==> r@[i] < r@[j],
                forall|i: int| 0 <= i < r@.len() ==> #[trigger] r@[i] < x,
                forall|i: int| 0 <= i < r@.len() ==> self.is_failure_bound(#[trigger] r@[i] as int),
                forall|v: int| 0 <= v < x && #[trigger] self.is_failure_bound(v) ==> r@.contains(v as usize),
            decreases n - x,
        {
            let ghost prev = r@;
            if self.check_failure_bound(x) {
                r.push(x);
            }
            assert forall|v: int| 0 <= v < x + 1 && #[trigger] self.is_failure_bound(v) implies r@.contains(
                v as usize,
            ) by {
                lemma_push_contains(prev, x, v as usize);
            }
            x = x + 1;
        }
        r
    }
}

/// After a success is recorded at `x`, every ancestor of `x` is implied to
/// pass, and after a failure is recorded at `x`, every descendant of `x` is
/// implied to fail; either way none of them is probed again. A first
/// success or failure at `x` leaves every commit that was settled before
/// settled.
pub proof fn lemma_notify_implies(before: Search, after: Search, x: int, status: Status)
    requires
        before.wf(),
        0 <= x < before.size(),
        after.graph == before.graph,
        after.statuses@ == before.statuses@.update(x, status),
    ensures
        after.wf(),
        status == Status::Success ==> forall|a: int|
            0 <= a < after.size() && #[trigger] after.graph.is_ancestor(a, x)
                ==> after.implied_success(a) && !after.undetermined(a),
        status == Status::Failure ==> forall|d: int|
            0 <= d < after.size() && #[trigger] after.graph.is_ancestor(x, d)
                ==> after.implied_failure(d) && !after.undetermined(d),
        before.status(x) == Status::Untested && (status == Status::Success || status
            == Status::Failure) ==> forall|y: int|
            0 <= y < after.size() && !before.undetermined(y) ==> !#[trigger] after.undetermined(y),
{
    assert(after.status(x) == status);
    if before.status(x) == Status::Untested && (status == Status::Success || status
        == Status::Failure) {
        assert forall|y: int| 0 <= y < after.size() && !before.undetermined(y) implies !#[trigger] after.undetermined(y) by {
            if before.implied_success(y) {
                let s = choose|s: int|
                    0 <= s < before.size() && before.status(s) == Status::Success
                        && #[trigger] before.graph.is_ancestor(y, s);
                if s != x {
                    assert(after.status(s) == Status::Success);
                }
                assert(after.graph.is_ancestor(y, s));
            } else if before.implied_failure(y) {
                let f = choose|f: int|
                    0 <= f < before.size() && before.status(f) == Status::Failure
                        && #[trigger] before.graph.is_ancestor(f, y);
                if f != x {
                    assert(after.status(f) == Status::Failure);
                }
                assert(after.graph.is_ancestor(f, y));
            } else {
                if y != x {
                    assert(after.status(y) == before.status(y));
                }
            }
        }
    }
}

} // verus!

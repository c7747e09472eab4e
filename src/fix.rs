//! Planning fixes: which passing commits left a changed tree, which of the
//! rewritten commits differ from their originals, and the rebase plan that
//! puts them in place with their descendants moved along.

use vstd::prelude::*;
use indexmap::IndexMap;
use crate::ordered::{result_at, result_entries, result_map_len};
use crate::status::{views, TestStatus};

verus! {

/// A commit rewritten with the tree that its command left behind.
#[derive(Clone, Debug, PartialEq, Eq)]
pub struct Fix {
    pub original_commit_oid: String,
    pub original_commit_parent_oids: Vec<String>,
    pub fixed_commit_oid: String,
}

/// One command of a rebase plan.
#[derive(Clone, Debug, PartialEq, Eq)]
pub enum PlanStep {
    /// Put `replacement` where `original` stood.
    Replace { original: String, replacement: String },
    /// Move the subtree rooted at `commit` onto `parents`.
    MoveSubtree { commit: String, parents: Vec<String> },
}

/// The candidates whose command passed and left a changed tree, with that
/// tree, in the order of `results`.
pub open spec fn fixed_trees_of(results: Seq<(usize, TestStatus)>) -> Seq<(usize, String)>
    decreases results.len(),
{
    if results.len() == 0 {
        Seq::empty()
    } else {
        let rest = fixed_trees_of(results.drop_last());
        match results.last().1 {
            TestStatus::Passed { fixed_tree_oid: Some(t), .. } => rest.push((results.last().0, t)),
            _ => rest,
        }
    }
}

/// Picks the passing outcomes that left a changed tree.
pub fn fixed_trees(results: &IndexMap<usize, TestStatus>) -> (r: Vec<(usize, String)>)
    ensures
        r@ == fixed_trees_of(result_entries(*results)),
{
    let ghost entries = result_entries(*results);
    let mut r: Vec<(usize, String)> = Vec::new();
    let n = result_map_len(results);
    let mut i: usize = 0;
    while i < n
        invariant
            n == entries.len(),
            entries == result_entries(*results),
            i <= n,
            r@ == fixed_trees_of(entries.subrange(0, i as int)),
        decreases n - i,
    {
        proof {
            let next = entries.subrange(0, i + 1);
            assert(next.drop_last() =~= entries.subrange(0, i as int));
            assert(next.last() == entries[i as int]);
        }
        let (commit, status) = match result_at(results, i) {
            Some(entry) => entry,
            None => {
                return r;
            },
        };
        match status {
            TestStatus::Passed { fixed_tree_oid: Some(t), .. } => {
                r.push((*commit, t.clone()));
            },
            _ => {},
        }
        i = i + 1;
    }
    assert(entries.subrange(0, n as int) =~= entries);
    r
}

/// The fixes whose rewritten commit differs from the original.
pub open spec fn changed_fixes_of(fixes: Seq<Fix>) -> Seq<Fix>
    decreases fixes.len(),
{
    if fixes.len() == 0 {
        Seq::empty()
    } else {
        let rest = changed_fixes_of(fixes.drop_last());
        if fixes.last().fixed_commit_oid@ == fixes.last().original_commit_oid@ {
            rest
        } else {
            rest.push(fixes.last())
        }
    }
}

/// Drops the fixes whose rewritten commit is the original itself (the tree
/// came out the same), keeping the order of the rest.
pub fn changed_fixes(fixes: Vec<Fix>) -> (r: Vec<Fix>)
    ensures
        r@ == changed_fixes_of(fixes@),
{
    let mut fixes = fixes;
    let ghost all = fixes@;
    // Take fixes from the back, so each is moved rather than copied.
    let mut r: Vec<Fix> = Vec::new();
    let mut pending: Vec<Fix> = Vec::new();
    while fixes.len() > 0
        invariant
            all == fixes@ + pending@.reverse(),
        decreases fixes@.len(),
    {
        let f = fixes.pop().unwrap();
        let ghost prev = pending@;
        pending.push(f);
        proof {
            assert(pending@.reverse() =~= seq![f] + prev.reverse());
            assert(all =~= fixes@ + pending@.reverse());
        }
    }
    assert(pending@.reverse() =~= all);
    assert(all.subrange(0, all.len() - pending@.len()) =~= Seq::<Fix>::empty());
    while pending.len() > 0
        invariant
            pending@.reverse() == all.subrange(all.len() - pending@.len(), all.len() as int),
            pending@.len() <= all.len(),
            r@ == changed_fixes_of(all.subrange(0, all.len() - pending@.len())),
        decreases pending@.len(),
    {
        let ghost before = pending@;
        let f = pending.pop().unwrap();
        let ghost k = all.len() - before.len();
        proof {
            assert(before.reverse()[0] == f);
            assert(all[k] == f);
            assert(pending@.reverse() =~= before.reverse().subrange(1, before.len() as int));
            let next = all.subrange(0, k + 1);
            assert(next.drop_last() =~= all.subrange(0, k));
            assert(next.last() == f);
        }
        if f.fixed_commit_oid != f.original_commit_oid {
            r.push(f);
        }
    }
    assert(all.subrange(0, all.len() as int) =~= all);
    r
}

/// The step puts `replacement` where `original` stood.
pub open spec fn is_replace(step: PlanStep, original: Seq<char>, replacement: Seq<char>) -> bool {
    match step {
        PlanStep::Replace { original: o, replacement: r } => o@ == original && r@ == replacement,
        _ => false,
    }
}

/// The step moves the subtree at `commit` onto `parents`.
pub open spec fn is_move(step: PlanStep, commit: Seq<char>, parents: Seq<Seq<char>>) -> bool {
    match step {
        PlanStep::MoveSubtree { commit: c, parents: p } => c@ == commit && views(p@) == parents,
        _ => false,
    }
}

/// Whether `oid` is the original commit of one of the fixes.
pub open spec fn is_fixed_original(fixes: Seq<Fix>, oid: Seq<char>) -> bool {
    exists|i: int| 0 <= i < fixes.len() && (#[trigger] fixes[i]).original_commit_oid@ == oid
}

/// The descendants that are not themselves fixed, in order.
pub open spec fn moved_descendants_of(
    descendants: Seq<(String, Vec<String>)>,
    fixes: Seq<Fix>,
) -> Seq<(String, Vec<String>)>
    decreases descendants.len(),
{
    if descendants.len() == 0 {
        Seq::empty()
    } else {
        let rest = moved_descendants_of(descendants.drop_last(), fixes);
        if is_fixed_original(fixes, descendants.last().0@) {
            rest
        } else {
            rest.push(descendants.last())
        }
    }
}

fn copy_strings(v: &Vec<String>) -> (r: Vec<String>)
    ensures
        r@ == v@,
{
    let mut r: Vec<String> = Vec::new();
    let n = v.len();
    let mut i: usize = 0;
    while i < n
        invariant
            n == v@.len(),
            i <= n,
            r@ == v@.subrange(0, i as int),
        decreases n - i,
    {
        r.push(v[i].clone());
        assert(r@ =~= v@.subrange(0, i + 1));
        i = i + 1;
    }
    assert(v@.subrange(0, n as int) =~= v@);
    r
}

fn is_original_exec(fixes: &Vec<Fix>, oid: &String) -> (r: bool)
    ensures
        r == is_fixed_original(fixes@, oid@),
{
    let n = fixes.len();
    let mut i: usize = 0;
    while i < n
        invariant
            n == fixes@.len(),
            i <= n,
            forall|j: int| 0 <= j < i ==> (#[trigger] fixes@[j]).original_commit_oid@ != oid@,
        decreases n - i,
    {
        if fixes[i].original_commit_oid == *oid {
            return true;
        }
        i = i + 1;
    }
    false
}

/// The rebase plan of the fixes: each fix replaces its original at the
/// original's parents, then each visible descendant that is not itself
/// fixed (`descendants` gives each with its parents) is replaced by itself
/// where it stands, so that it follows its rewritten ancestors.
pub fn build_fix_plan(fixes: &Vec<Fix>, descendants: &Vec<(String, Vec<String>)>) -> (r: Vec<
    PlanStep,
>)
    ensures
        ({
            let moved = moved_descendants_of(descendants@, fixes@);
            &&& r@.len() == 2 * fixes@.len() + 2 * moved.len()
            &&& forall|i: int|
                0 <= i < fixes@.len() ==> is_replace(
                    #[trigger] r@[2 * i],
                    fixes@[i].original_commit_oid@,
                    fixes@[i].fixed_commit_oid@,
                ) && is_move(
                    r@[2 * i + 1],
                    fixes@[i].original_commit_oid@,
                    views(fixes@[i].original_commit_parent_oids@),
                )
            &&& forall|j: int|
                0 <= j < moved.len() ==> is_replace(
                    #[trigger] r@[2 * fixes@.len() + 2 * j],
                    moved[j].0@,
                    moved[j].0@,
                ) && is_move(r@[2 * fixes@.len() + 2 * j + 1], moved[j].0@, views(moved[j].1@))
        }),
{
    let mut r: Vec<PlanStep> = Vec::new();
    let n = fixes.len();
    let mut i: usize = 0;
    while i < n
        invariant
            n == fixes@.len(),
            i <= n,
            r@.len() == 2 * i,
            forall|k: int|
                0 <= k < i ==> is_replace(
                    #[trigger] r@[2 * k],
                    fixes@[k].original_commit_oid@,
                    fixes@[k].fixed_commit_oid@,
                ) && is_move(
                    r@[2 * k + 1],
                    fixes@[k].original_commit_oid@,
                    views(fixes@[k].original_commit_parent_oids@),
                ),
        decreases n - i,
    {
        let f = &fixes[i];
        r.push(
            PlanStep::Replace {
                original: f.original_commit_oid.clone(),
                replacement: f.fixed_commit_oid.clone(),
            },
        );
        let parents = copy_strings(&f.original_commit_parent_oids);
        r.push(PlanStep::MoveSubtree { commit: f.original_commit_oid.clone(), parents });
        assert(is_replace(r@[2 * i], fixes@[i as int].original_commit_oid@, fixes@[i as int].fixed_commit_oid@));
        i = i + 1;
    }
    let m = descendants.len();
    let base = r.len();
    let mut d: usize = 0;
    while d < m
        invariant
            n == fixes@.len(),
            m == descendants@.len(),
            base == 2 * n,
            d <= m,
            r@.len() == base + 2 * moved_descendants_of(descendants@.subrange(0, d as int), fixes@).len(),
            forall|k: int|
                0 <= k < n ==> is_replace(
                    #[trigger] r@[2 * k],
                    fixes@[k].original_commit_oid@,
                    fixes@[k].fixed_commit_oid@,
                ) && is_move(
                    r@[2 * k + 1],
                    fixes@[k].original_commit_oid@,
                    views(fixes@[k].original_commit_parent_oids@),
                ),
            forall|j: int|
                0 <= j < moved_descendants_of(descendants@.subrange(0, d as int), fixes@).len()
                    ==> is_replace(
                    #[trigger] r@[base + 2 * j],
                    moved_descendants_of(descendants@.subrange(0, d as int), fixes@)[j].0@,
                    moved_descendants_of(descendants@.subrange(0, d as int), fixes@)[j].0@,
                ) && is_move(
                    r@[base + 2 * j + 1],
                    moved_descendants_of(descendants@.subrange(0, d as int), fixes@)[j].0@,
                    views(moved_descendants_of(descendants@.subrange(0, d as int), fixes@)[j].1@),
                ),
        decreases m - d,
    {
        let ghost prev_moved = moved_descendants_of(descendants@.subrange(0, d as int), fixes@);
        let ghost prev_r = r@;
        proof {
            let next = descendants@.subrange(0, d + 1);
            assert(next.drop_last() =~= descendants@.subrange(0, d as int));
            assert(next.last() == descendants@[d as int]);
        }
        let (oid, parents) = (&descendants[d].0, &descendants[d].1);
        if !is_original_exec(fixes, oid) {
            r.push(PlanStep::Replace { original: oid.clone(), replacement: oid.clone() });
            let copied = copy_strings(parents);
            r.push(PlanStep::MoveSubtree { commit: oid.clone(), parents: copied });
            proof {
                let moved = moved_descendants_of(descendants@.subrange(0, d + 1), fixes@);
                assert(moved == prev_moved.push(descendants@[d as int]));
                let j = prev_moved.len() as int;
                assert(is_replace(r@[base + 2 * j], moved[j].0@, moved[j].0@));
                assert forall|i: int| 0 <= i < moved.len() implies is_replace(
                    #[trigger] r@[base + 2 * i],
                    moved[i].0@,
                    moved[i].0@,
                ) && is_move(r@[base + 2 * i + 1], moved[i].0@, views(moved[i].1@)) by {
                    if i < j {
                        assert(r@[base + 2 * i] == prev_r[base + 2 * i]);
                        assert(r@[base + 2 * i + 1] == prev_r[base + 2 * i + 1]);
                        assert(moved[i] == prev_moved[i]);
                    }
                }
            }
        }
        proof {
            assert(r@.len() >= prev_r.len());
            assert forall|k: int| 0 <= k < n implies is_replace(
                #[trigger] r@[2 * k],
                fixes@[k].original_commit_oid@,
                fixes@[k].fixed_commit_oid@,
            ) && is_move(
                r@[2 * k + 1],
                fixes@[k].original_commit_oid@,
                views(fixes@[k].original_commit_parent_oids@),
            ) by {
                assert(r@[2 * k] == prev_r[2 * k]);
                assert(r@[2 * k + 1] == prev_r[2 * k + 1]);
            }
        }
        d = d + 1;
    }
    assert(descendants@.subrange(0, m as int) =~= descendants@);
    proof {
        let moved = moved_descendants_of(descendants@, fixes@);
        assert forall|j: int| 0 <= j < moved.len() implies is_replace(
            #[trigger] r@[2 * fixes@.len() + 2 * j],
            moved[j].0@,
            moved[j].0@,
        ) && is_move(r@[2 * fixes@.len() + 2 * j + 1], moved[j].0@, views(moved[j].1@)) by {
            assert(r@[base + 2 * j] == r@[2 * fixes@.len() + 2 * j]);
        }
    }
    r
}

/// The mapping from each original commit to its rewritten one, as a
/// dry run reports it.
pub fn fix_mapping(fixes: &Vec<Fix>) -> (r: Vec<(String, String)>)
    ensures
        r@.len() == fixes@.len(),
        forall|i: int|
            0 <= i < r@.len() ==> (#[trigger] r@[i]).0@ == fixes@[i].original_commit_oid@
                && r@[i].1@ == fixes@[i].fixed_commit_oid@,
{
    let mut r: Vec<(String, String)> = Vec::new();
    let n = fixes.len();
    let mut i: usize = 0;
    while i < n
        invariant
            n == fixes@.len(),
            i <= n,
            r@.len() == i,
            forall|k: int|
                0 <= k < i ==> (#[trigger] r@[k]).0@ == fixes@[k].original_commit_oid@ && r@[k].1@
                    == fixes@[k].fixed_commit_oid@,
        decreases n - i,
    {
        r.push((fixes[i].original_commit_oid.clone(), fixes[i].fixed_commit_oid.clone()));
        i = i + 1;
    }
    r
}

} // verus!

//! The summary of a run: counts per bucket and the process exit code.

use vstd::prelude::*;
use indexmap::IndexMap;
use crate::ordered::{result_at, result_entries, result_map_len};
use crate::status::{Bucket, TestStatus};
use crate::text::{dec, format_u64};

verus! {

/// The counts of a run's outcomes.
#[derive(Clone, Copy, Debug, PartialEq, Eq, Structural)]
pub struct Tally {
    pub passed: usize,
    pub failed: usize,
    pub skipped: usize,
    /// Outcomes read from the cache, among the passed and failed ones.
    pub cached: usize,
}

/// The number of outcomes in `bucket`.
pub open spec fn count_bucket(results: Seq<(usize, TestStatus)>, bucket: Bucket) -> nat
    decreases results.len(),
{
    if results.len() == 0 {
        0
    } else {
        count_bucket(results.drop_last(), bucket) + if results.last().1.bucket_of() == bucket {
            1nat
        } else {
            0nat
        }
    }
}

/// The number of outcomes read from the cache.
pub open spec fn count_cached(results: Seq<(usize, TestStatus)>) -> nat
    decreases results.len(),
{
    if results.len() == 0 {
        0
    } else {
        count_cached(results.drop_last()) + if results.last().1.is_cached() {
            1nat
        } else {
            0nat
        }
    }
}

/// Counts the outcomes of a run by bucket, and those read from the cache.
pub fn tally(results: &IndexMap<usize, TestStatus>) -> (r: Tally)
    ensures
        r.passed == count_bucket(result_entries(*results), Bucket::Passed),
        r.failed == count_bucket(result_entries(*results), Bucket::Failed),
        r.skipped == count_bucket(result_entries(*results), Bucket::Skipped),
        r.cached == count_cached(result_entries(*results)),
{
    let ghost entries = result_entries(*results);
    let mut t = Tally { passed: 0, failed: 0, skipped: 0, cached: 0 };
    let n = result_map_len(results);
    let mut i: usize = 0;
    while i < n
        invariant
            n == entries.len(),
            entries == result_entries(*results),
            i <= n,
            t.passed == count_bucket(entries.subrange(0, i as int), Bucket::Passed),
            t.failed == count_bucket(entries.subrange(0, i as int), Bucket::Failed),
            t.skipped == count_bucket(entries.subrange(0, i as int), Bucket::Skipped),
            t.cached == count_cached(entries.subrange(0, i as int)),
            t.passed + t.failed + t.skipped == i,
            t.cached <= i,
        decreases n - i,
    {
        let status = match result_at(results, i) {
            Some(entry) => entry.1,
            None => {
                return t;
            },
        };
        proof {
            let next = entries.subrange(0, i + 1);
            assert(next.drop_last() =~= entries.subrange(0, i as int));
            assert(next.last() == entries[i as int]);
        }
        match status.bucket() {
            Bucket::Passed => t.passed = t.passed + 1,
            Bucket::Failed => t.failed = t.failed + 1,
            Bucket::Skipped => t.skipped = t.skipped + 1,
        }
        if status.cached() {
            t.cached = t.cached + 1;
        }
        i = i + 1;
    }
    assert(entries.subrange(0, n as int) =~= entries);
    t
}

/// The exit code of a run: 1 after an abort; else 0 for a search; else 1
/// when anything failed or was skipped, and 0 when everything passed.
pub open spec fn exit_code_of(tally: Tally, is_search: bool, aborted: bool) -> i32 {
    if aborted {
        1
    } else if is_search {
        0
    } else if tally.failed > 0 || tally.skipped > 0 {
        1
    } else {
        0
    }
}

/// The exit code of a run.
pub fn summary_exit_code(tally: &Tally, is_search: bool, aborted: bool) -> (r: i32)
    ensures
        r == exit_code_of(*tally, is_search, aborted),
{
    if aborted {
        1
    } else if is_search {
        0
    } else if tally.failed > 0 || tally.skipped > 0 {
        1
    } else {
        0
    }
}

/// `1 commit`, `2 commits`: an amount with the word for it.
pub open spec fn pluralized(amount: nat, singular: Seq<char>, plural: Seq<char>) -> Seq<char> {
    dec(amount) + " "@ + if amount == 1 {
        singular
    } else {
        plural
    }
}

/// Writes an amount with the singular or plural word for it.
pub fn pluralize(amount: usize, singular: &str, plural: &str) -> (r: String)
    ensures
        r@ == pluralized(amount as nat, singular@, plural@),
{
    let mut r = format_u64(amount as u64);
    r.append(" ");
    if amount == 1 {
        r.append(singular);
    } else {
        r.append(plural);
    }
    r
}

/// The line that heads the summary of a run.
pub fn tested_line(num_results: usize, command: &str) -> (r: String)
    ensures
        r@ == "Tested "@ + pluralized(num_results as nat, "commit"@, "commits"@) + " with "@
            + command@ + ":"@,
{
    let mut r = String::from_str("Tested ");
    let amount = pluralize(num_results, "commit", "commits");
    r.append(amount.as_str());
    r.append(" with ");
    r.append(command);
    r.append(":");
    r
}

/// The line with the counts of a run.
pub fn counts_line(tally: &Tally) -> (r: String)
    ensures
        r@ == dec(tally.passed as nat) + " passed, "@ + dec(tally.failed as nat) + " failed, "@
            + dec(tally.skipped as nat) + " skipped"@,
{
    let mut r = format_u64(tally.passed as u64);
    r.append(" passed, ");
    let failed = format_u64(tally.failed as u64);
    r.append(failed.as_str());
    r.append(" failed, ");
    let skipped = format_u64(tally.skipped as u64);
    r.append(skipped.as_str());
    r.append(" skipped");
    r
}

} // verus!

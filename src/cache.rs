//! The result cache: where a slot lies, and what reading a slot under its
//! lock yields.
//!
//! A slot is the directory `<test dir>/<tree>/<command slug>/`, holding the
//! files `result`, `stdout`, `stderr` and `pid.lock`.

use vstd::prelude::*;
use crate::status::{status_of_exit, record_of, status_of_record, with_cached, CacheRecord, TestStatus};
use crate::text::{command_slug, slug_of};

verus! {

/// The directory of the slot for `tree_oid` and `command` under `test_dir`.
pub open spec fn slot_dir_of(test_dir: Seq<char>, tree_oid: Seq<char>, command: Seq<char>) -> Seq<
    char,
> {
    test_dir + "/"@ + tree_oid + "/"@ + slug_of(command)
}

/// The directory of the slot for `tree_oid` and `command` under `test_dir`.
pub fn slot_dir(test_dir: &str, tree_oid: &str, command: &str) -> (r: String)
    ensures
        r@ == slot_dir_of(test_dir@, tree_oid@, command@),
{
    let mut r = String::from_str(test_dir);
    r.append("/");
    r.append(tree_oid);
    r.append("/");
    let slug = command_slug(command);
    r.append(slug.as_str());
    r
}

/// The directory that holds every slot of one tree; removing it cleans the
/// cached results of every commit with that tree.
pub fn tree_dir(test_dir: &str, tree_oid: &str) -> (r: String)
    ensures
        r@ == test_dir@ + "/"@ + tree_oid@,
{
    let mut r = String::from_str(test_dir);
    r.append("/");
    r.append(tree_oid);
    r
}

/// A file in a slot directory.
pub fn slot_file(slot_dir: &str, name: &str) -> (r: String)
    ensures
        r@ == slot_dir@ + "/"@ + name@,
{
    let mut r = String::from_str(slot_dir);
    r.append("/");
    r.append(name);
    r
}

/// Two commits with the same tree share the slot of a command: the slot
/// depends on the tree and the command alone.
pub proof fn lemma_slot_keyed_by_tree(
    test_dir: Seq<char>,
    tree_a: Seq<char>,
    tree_b: Seq<char>,
    command: Seq<char>,
)
    requires
        tree_a == tree_b,
    ensures
        slot_dir_of(test_dir, tree_a, command) == slot_dir_of(test_dir, tree_b, command),
{
}

/// What the `result` file of a slot held when it was read.
#[derive(Clone, Debug, PartialEq, Eq)]
pub enum SlotContents {
    /// No file, or one that could not be read.
    Missing,
    /// An empty file: the last writer did not finish.
    Empty,
    /// A file whose record could not be parsed, with the parser's message.
    Unparsable(String),
    /// A stored record.
    Record(CacheRecord),
}

/// What taking a slot yields.
#[derive(Clone, Debug, PartialEq, Eq)]
pub enum SlotOutcome {
    /// The slot is ours to run the test and write the result.
    Acquired,
    /// The slot held a result.
    Cached(TestStatus),
    /// Another holder has the slot.
    Busy(TestStatus),
}

/// What taking a slot yields, given whether its lock was taken and what its
/// `result` file held.
pub open spec fn slot_outcome(locked: bool, contents: SlotContents) -> SlotOutcome {
    if !locked {
        SlotOutcome::Busy(TestStatus::AlreadyInProgress)
    } else {
        match contents {
            SlotContents::Missing | SlotContents::Empty => SlotOutcome::Acquired,
            SlotContents::Unparsable(msg) => SlotOutcome::Cached(TestStatus::ReadCacheFailed(msg)),
            SlotContents::Record(record) => SlotOutcome::Cached(status_of_record(record)),
        }
    }
}

/// Decides what taking a slot yields. Without the lock the slot is busy;
/// with it, a missing or empty `result` (a writer that crashed) hands the
/// slot over to be written again, and a stored record is the cached outcome.
pub fn read_slot(locked: bool, contents: SlotContents) -> (r: SlotOutcome)
    ensures
        r == slot_outcome(locked, contents),
        r is Acquired ==> locked,
        locked && contents == SlotContents::Empty ==> r is Acquired,
{
    if !locked {
        return SlotOutcome::Busy(TestStatus::AlreadyInProgress);
    }
    match contents {
        SlotContents::Missing | SlotContents::Empty => SlotOutcome::Acquired,
        SlotContents::Unparsable(msg) => SlotOutcome::Cached(TestStatus::ReadCacheFailed(msg)),
        SlotContents::Record(record) => SlotOutcome::Cached(crate::status::status_from_record(&record)),
    }
}

/// Once the results of a tree are cleaned its slots hold no file, so a
/// later look at them with the lock free finds no cached data.
pub proof fn lemma_cleaned_slot_not_cached()
    ensures
        slot_outcome(true, SlotContents::Missing) == SlotOutcome::Acquired,
{
}

/// A command that exited and had its record written is read back on the
/// next run as the same outcome, marked as cached where the outcome has
/// that mark.
pub proof fn lemma_second_run_cached(
    command: String,
    exit_code: i32,
    fixed_tree_oid: Option<String>,
    interactive: bool,
)
    ensures
        ({
            let status = status_of_exit(exit_code, fixed_tree_oid, interactive);
            let outcome = slot_outcome(
                true,
                SlotContents::Record(record_of(command, exit_code, status, interactive)),
            );
            &&& outcome == SlotOutcome::Cached(with_cached(status))
            &&& (status is Passed || status is Failed) ==> with_cached(status).is_cached()
        }),
{
}

} // verus!

//! Test outcomes: how an exit code is classified, how an outcome is stored
//! in and read back from the cache, and how it is bucketed and described.

use vstd::prelude::*;
use crate::search::Status;
use crate::text::{dec_int, format_i64};

verus! {

/// The exit code by which a test command asks to skip the commit.
pub const INDETERMINATE_EXIT_CODE: i32 = 125;

/// The exit code by which a test command asks to stop all testing.
pub const ABORT_EXIT_CODE: i32 = 127;

/// The icon of a passing test.
pub const CHECKMARK: &'static str = "✓";

/// The icon of a failing test.
pub const CROSS: &'static str = "X";

/// The icon of a skipped test.
pub const EXCLAMATION: &'static str = "!";

/// The possible results of attempting to run a test.
#[derive(Clone, Debug, PartialEq, Eq)]
pub enum TestStatus {
    /// Setting up the working directory failed.
    CheckoutFailed,
    /// The test command could not be spawned.
    SpawnTestFailed(String),
    /// The test command was ended by a signal instead of exiting.
    TerminatedBySignal,
    /// Another process holds the lock of this result slot.
    AlreadyInProgress,
    /// The cached result could not be read.
    ReadCacheFailed(String),
    /// The command asked to skip this commit.
    Indeterminate { exit_code: i32 },
    /// The command asked to stop testing altogether.
    Abort { exit_code: i32 },
    /// The command failed with the given exit code.
    Failed { cached: bool, exit_code: i32, interactive: bool },
    /// The command passed. `fixed_tree_oid` is the tree that the command
    /// left behind, where it differs from the commit's own.
    Passed { cached: bool, fixed_tree_oid: Option<String>, interactive: bool },
}

/// The record stored in a cache slot's `result` file.
#[derive(Clone, Debug, PartialEq, Eq)]
pub struct CacheRecord {
    pub command: String,
    pub exit_code: i32,
    pub fixed_tree_oid: Option<String>,
    pub interactive: bool,
}

/// The summary bucket of an outcome.
#[derive(Clone, Copy, Debug, PartialEq, Eq, Structural)]
pub enum Bucket {
    Passed,
    Failed,
    Skipped,
}

/// How the working tree looked after a passing command.
#[derive(Clone, Copy, Debug, PartialEq, Eq, Structural)]
pub enum WorkingCopyChanges {
    Clean,
    Unstaged,
    Staged,
    Conflicts,
}

/// How much of a test's output to show.
#[derive(Clone, Copy, Debug, PartialEq, Eq, Structural)]
pub enum Verbosity {
    /// No output.
    NoOutput,
    /// The first and last lines of the output.
    PartialOutput,
    /// All of the output.
    FullOutput,
}

/// The verbosity for a count of `-v` flags.
pub open spec fn verbosity_of_count(value: u8) -> Verbosity {
    if value == 0 {
        Verbosity::NoOutput
    } else if value == 1 {
        Verbosity::PartialOutput
    } else {
        Verbosity::FullOutput
    }
}

impl From<u8> for Verbosity {
    fn from(value: u8) -> (r: Verbosity) {
        if value == 0 {
            Verbosity::NoOutput
        } else if value == 1 {
            Verbosity::PartialOutput
        } else {
            Verbosity::FullOutput
        }
    }
}

impl vstd::std_specs::convert::FromSpecImpl<u8> for Verbosity {
    open spec fn obeys_from_spec() -> bool {
        true
    }

    open spec fn from_spec(value: u8) -> Verbosity {
        verbosity_of_count(value)
    }
}

impl Verbosity {
    /// The verbosity for a count of `-v` flags: none, partial, then full.
    pub fn from_count(value: u8) -> (r: Verbosity)
        ensures
            r == verbosity_of_count(value),
    {
        Verbosity::from(value)
    }
}

/// The outcome of a command that ran to its end with `exit_code`.
pub open spec fn status_of_exit(
    exit_code: i32,
    fixed_tree_oid: Option<String>,
    interactive: bool,
) -> TestStatus {
    if exit_code == 0 {
        TestStatus::Passed { cached: false, fixed_tree_oid, interactive }
    } else if exit_code == INDETERMINATE_EXIT_CODE {
        TestStatus::Indeterminate { exit_code }
    } else if exit_code == ABORT_EXIT_CODE {
        TestStatus::Abort { exit_code }
    } else {
        TestStatus::Failed { cached: false, exit_code, interactive }
    }
}

/// Classifies how the test command ended: `None` when no exit code was
/// captured (a signal ended it); 0 passes, 125 skips, 127 aborts and any
/// other code fails. `fixed_tree_oid` is kept only by a pass.
pub fn classify_exit(
    exit_code: Option<i32>,
    fixed_tree_oid: Option<String>,
    interactive: bool,
) -> (r: TestStatus)
    ensures
        exit_code is None ==> r == TestStatus::TerminatedBySignal,
        exit_code is Some ==> r == status_of_exit(exit_code->0, fixed_tree_oid, interactive),
        exit_code == Some(0i32) ==> r is Passed,
        exit_code == Some(INDETERMINATE_EXIT_CODE) ==> r is Indeterminate,
        exit_code == Some(ABORT_EXIT_CODE) ==> r is Abort,
        (exit_code is Some && exit_code->0 != 0 && exit_code->0 != INDETERMINATE_EXIT_CODE
            && exit_code->0 != ABORT_EXIT_CODE) ==> r is Failed,
{
    match exit_code {
        None => TestStatus::TerminatedBySignal,
        Some(code) => {
            if code == 0 {
                TestStatus::Passed { cached: false, fixed_tree_oid, interactive }
            } else if code == INDETERMINATE_EXIT_CODE {
                TestStatus::Indeterminate { exit_code: code }
            } else if code == ABORT_EXIT_CODE {
                TestStatus::Abort { exit_code: code }
            } else {
                TestStatus::Failed { cached: false, exit_code: code, interactive }
            }
        },
    }
}

/// The tree to record for a passing command: the snapshot of the working
/// tree when it differs from the commit's tree and holds no staged changes
/// or conflicts.
pub open spec fn fixed_tree_of(
    changes: WorkingCopyChanges,
    commit_tree: Seq<char>,
    snapshot_tree: Option<String>,
) -> Option<String> {
    match changes {
        WorkingCopyChanges::Clean | WorkingCopyChanges::Unstaged => match snapshot_tree {
            Some(t) => if t@ != commit_tree {
                Some(t)
            } else {
                None
            },
            None => None,
        },
        WorkingCopyChanges::Staged | WorkingCopyChanges::Conflicts => None,
    }
}

/// Decides which tree a passing command fixed, if any. `snapshot_tree` is
/// the tree of the unstaged snapshot, `None` where the snapshot has no tree.
pub fn fixed_tree(
    changes: WorkingCopyChanges,
    commit_tree: &String,
    snapshot_tree: Option<String>,
) -> (r: Option<String>)
    ensures
        r == fixed_tree_of(changes, commit_tree@, snapshot_tree),
{
    match changes {
        WorkingCopyChanges::Clean | WorkingCopyChanges::Unstaged => match snapshot_tree {
            Some(t) => {
                if t == *commit_tree {
                    None
                } else {
                    Some(t)
                }
            },
            None => None,
        },
        WorkingCopyChanges::Staged | WorkingCopyChanges::Conflicts => None,
    }
}

/// The outcome that a stored record stands for: read from the cache, so
/// `cached` is set.
pub open spec fn status_of_record(record: CacheRecord) -> TestStatus {
    if record.exit_code == 0 {
        TestStatus::Passed {
            cached: true,
            fixed_tree_oid: record.fixed_tree_oid,
            interactive: record.interactive,
        }
    } else if record.exit_code == INDETERMINATE_EXIT_CODE {
        TestStatus::Indeterminate { exit_code: record.exit_code }
    } else if record.exit_code == ABORT_EXIT_CODE {
        TestStatus::Abort { exit_code: record.exit_code }
    } else {
        TestStatus::Failed {
            cached: true,
            exit_code: record.exit_code,
            interactive: record.interactive,
        }
    }
}

/// The record to store for a command that exited with `exit_code`: the
/// fixed tree is kept only from a pass.
pub open spec fn record_of(
    command: String,
    exit_code: i32,
    status: TestStatus,
    interactive: bool,
) -> CacheRecord {
    CacheRecord {
        command,
        exit_code,
        fixed_tree_oid: match status {
            TestStatus::Passed { fixed_tree_oid, .. } => fixed_tree_oid,
            _ => None,
        },
        interactive,
    }
}

/// The outcome that a record read from the cache stands for.
pub fn status_from_record(record: &CacheRecord) -> (r: TestStatus)
    ensures
        r == status_of_record(*record),
{
    let code = record.exit_code;
    if code == 0 {
        TestStatus::Passed {
            cached: true,
            fixed_tree_oid: record.fixed_tree_oid.clone(),
            interactive: record.interactive,
        }
    } else if code == INDETERMINATE_EXIT_CODE {
        TestStatus::Indeterminate { exit_code: code }
    } else if code == ABORT_EXIT_CODE {
        TestStatus::Abort { exit_code: code }
    } else {
        TestStatus::Failed { cached: true, exit_code: code, interactive: record.interactive }
    }
}

/// The record to store for `command` after it exited with `exit_code` and
/// was classified as `status`.
pub fn record_for(command: &String, exit_code: i32, status: &TestStatus, interactive: bool) -> (r:
    CacheRecord)
    ensures
        r == record_of(*command, exit_code, *status, interactive),
{
    let fixed_tree_oid = match status {
        TestStatus::Passed { fixed_tree_oid, .. } => match fixed_tree_oid {
            Some(t) => Some(t.clone()),
            None => None,
        },
        _ => None,
    };
    CacheRecord { command: command.clone(), exit_code, fixed_tree_oid, interactive }
}

/// A command that exited and was recorded reads back from the cache as the
/// same outcome, now marked as cached; the stored record keeps the command
/// and exit code exactly.
pub proof fn lemma_record_round_trip(
    command: String,
    exit_code: i32,
    fixed_tree_oid: Option<String>,
    interactive: bool,
)
    ensures
        ({
            let status = status_of_exit(exit_code, fixed_tree_oid, interactive);
            let record = record_of(command, exit_code, status, interactive);
            &&& record.command == command
            &&& record.exit_code == exit_code
            &&& record.interactive == interactive
            &&& status_of_record(record) == with_cached(status)
            &&& (status_of_record(record) is Passed ==> status_of_record(record)->Passed_cached)
            &&& (status_of_record(record) is Failed ==> status_of_record(record)->Failed_cached)
        }),
{
}

/// The same outcome, marked as read from the cache.
pub open spec fn with_cached(status: TestStatus) -> TestStatus {
    match status {
        TestStatus::Passed { fixed_tree_oid, interactive, .. } => TestStatus::Passed {
            cached: true,
            fixed_tree_oid,
            interactive,
        },
        TestStatus::Failed { exit_code, interactive, .. } => TestStatus::Failed {
            cached: true,
            exit_code,
            interactive,
        },
        other => other,
    }
}

impl TestStatus {
    /// The summary bucket: passes pass; failures and aborts fail; everything
    /// else is skipped.
    pub open spec fn bucket_of(&self) -> Bucket {
        match self {
            TestStatus::Passed { .. } => Bucket::Passed,
            TestStatus::Failed { .. } | TestStatus::Abort { .. } => Bucket::Failed,
            _ => Bucket::Skipped,
        }
    }

    /// Whether the outcome was read from the cache.
    pub open spec fn is_cached(&self) -> bool {
        match self {
            TestStatus::Passed { cached, .. } => *cached,
            TestStatus::Failed { cached, .. } => *cached,
            _ => false,
        }
    }

    /// What the search learns from the outcome.
    pub open spec fn search_status_of(&self) -> Status {
        match self {
            TestStatus::Passed { .. } => Status::Success,
            TestStatus::Failed { .. } => Status::Failure,
            _ => Status::Indeterminate,
        }
    }

    /// Whether the command ran attached to the terminal.
    pub open spec fn is_interactive(&self) -> bool {
        match self {
            TestStatus::Passed { interactive, .. } => *interactive,
            TestStatus::Failed { interactive, .. } => *interactive,
            _ => false,
        }
    }

    /// The summary bucket of the outcome.
    pub fn bucket(&self) -> (r: Bucket)
        ensures
            r == self.bucket_of(),
    {
        match self {
            TestStatus::Passed { .. } => Bucket::Passed,
            TestStatus::Failed { .. } | TestStatus::Abort { .. } => Bucket::Failed,
            _ => Bucket::Skipped,
        }
    }

    /// Whether the outcome was read from the cache.
    pub fn cached(&self) -> (r: bool)
        ensures
            r == self.is_cached(),
    {
        match self {
            TestStatus::Passed { cached, .. } => *cached,
            TestStatus::Failed { cached, .. } => *cached,
            _ => false,
        }
    }

    /// Whether the command ran attached to the terminal.
    pub fn interactive(&self) -> (r: bool)
        ensures
            r == self.is_interactive(),
    {
        match self {
            TestStatus::Passed { interactive, .. } => *interactive,
            TestStatus::Failed { interactive, .. } => *interactive,
            _ => false,
        }
    }

    /// What the search learns from the outcome: a pass is a success, a
    /// failure a failure, and anything else says nothing.
    pub fn search_status(&self) -> (r: Status)
        ensures
            r == self.search_status_of(),
    {
        match self {
            TestStatus::Passed { .. } => Status::Success,
            TestStatus::Failed { .. } => Status::Failure,
            _ => Status::Indeterminate,
        }
    }

    /// A copy of the outcome.
    pub fn duplicate(&self) -> (r: TestStatus)
        ensures
            r == *self,
    {
        match self {
            TestStatus::CheckoutFailed => TestStatus::CheckoutFailed,
            TestStatus::SpawnTestFailed(m) => TestStatus::SpawnTestFailed(m.clone()),
            TestStatus::TerminatedBySignal => TestStatus::TerminatedBySignal,
            TestStatus::AlreadyInProgress => TestStatus::AlreadyInProgress,
            TestStatus::ReadCacheFailed(m) => TestStatus::ReadCacheFailed(m.clone()),
            TestStatus::Indeterminate { exit_code } => TestStatus::Indeterminate {
                exit_code: *exit_code,
            },
            TestStatus::Abort { exit_code } => TestStatus::Abort { exit_code: *exit_code },
            TestStatus::Failed { cached, exit_code, interactive } => TestStatus::Failed {
                cached: *cached,
                exit_code: *exit_code,
                interactive: *interactive,
            },
            TestStatus::Passed { cached, fixed_tree_oid, interactive } => TestStatus::Passed {
                cached: *cached,
                fixed_tree_oid: match fixed_tree_oid {
                    Some(t) => Some(t.clone()),
                    None => None,
                },
                interactive: *interactive,
            },
        }
    }

    /// The icon shown beside the outcome.
    pub fn get_icon(&self) -> (r: &'static str)
        ensures
            self.bucket_of() == Bucket::Passed ==> r == CHECKMARK,
            self.bucket_of() == Bucket::Failed ==> r == CROSS,
            self.bucket_of() == Bucket::Skipped ==> r == EXCLAMATION,
    {
        match self {
            TestStatus::Passed { .. } => CHECKMARK,
            TestStatus::Failed { .. } | TestStatus::Abort { .. } => CROSS,
            _ => EXCLAMATION,
        }
    }
}

/// Words joined with `, `.
pub open spec fn join_words(words: Seq<Seq<char>>) -> Seq<char>
    decreases words.len(),
{
    if words.len() == 0 {
        Seq::empty()
    } else if words.len() == 1 {
        words[0]
    } else {
        join_words(words.drop_last()) + ", "@ + words.last()
    }
}

/// The words in parentheses after "Failed".
pub open spec fn failed_words(cached: bool, exit_code: i32, interactive: bool) -> Seq<Seq<char>> {
    (if cached { seq!["cached"@] } else { Seq::empty() }) + seq!["exit code "@ + dec_int(
        exit_code as int,
    )] + (if interactive { seq!["interactive"@] } else { Seq::empty() })
}

/// The words in parentheses after "Passed".
pub open spec fn passed_words(cached: bool, fixed: bool, interactive: bool) -> Seq<Seq<char>> {
    (if cached { seq!["cached"@] } else { Seq::empty() }) + (if fixed { seq!["fixed"@] } else {
        Seq::empty()
    }) + (if interactive { seq!["interactive"@] } else { Seq::empty() })
}

/// The text that leads the description of a tested commit.
pub open spec fn description_of(status: TestStatus) -> Seq<char> {
    match status {
        TestStatus::CheckoutFailed => "Failed to check out: "@,
        TestStatus::SpawnTestFailed(err) => "Failed to spawn test: "@ + err@ + ": "@,
        TestStatus::TerminatedBySignal => "Test command terminated by signal: "@,
        TestStatus::AlreadyInProgress => "Test already in progress? "@,
        TestStatus::ReadCacheFailed(_) => "Could not read cached test result: "@,
        TestStatus::Indeterminate { exit_code } => "Exit code indicated to skip this commit (exit code "@
            + dec_int(exit_code as int) + "): "@,
        TestStatus::Abort { exit_code } => "Exit code indicated to abort testing (exit code "@
            + dec_int(exit_code as int) + "): "@,
        TestStatus::Failed { cached, exit_code, interactive } => "Failed ("@ + join_words(
            failed_words(cached, exit_code, interactive),
        ) + "): "@,
        TestStatus::Passed { cached, fixed_tree_oid, interactive } => {
            let words = passed_words(cached, fixed_tree_oid is Some, interactive);
            "Passed"@ + (if words.len() == 0 {
                Seq::empty()
            } else {
                " ("@ + join_words(words) + ")"@
            }) + ": "@
        },
    }
}

fn push_word(joined: &mut String, count: usize, words: Ghost<Seq<Seq<char>>>, word: &str)
    requires
        count == words@.len(),
        old(joined)@ == join_words(words@),
    ensures
        final(joined)@ == join_words(words@.push(word@)),
{
    assert(words@.push(word@).drop_last() =~= words@);
    if count > 0 {
        joined.append(", ");
    }
    joined.append(word);
    proof {
        if count == 0 {
            assert(old(joined)@ =~= Seq::<char>::empty());
            assert(final(joined)@ =~= word@);
        }
    }
}

/// The text that leads the description of a tested commit; the caller
/// appends the commit's own description.
pub fn test_status_description(status: &TestStatus) -> (r: String)
    ensures
        r@ == description_of(*status),
{
    match status {
        TestStatus::CheckoutFailed => String::from_str("Failed to check out: "),
        TestStatus::SpawnTestFailed(err) => {
            let mut r = String::from_str("Failed to spawn test: ");
            r.append(err.as_str());
            r.append(": ");
            r
        },
        TestStatus::TerminatedBySignal => String::from_str("Test command terminated by signal: "),
        TestStatus::AlreadyInProgress => String::from_str("Test already in progress? "),
        TestStatus::ReadCacheFailed(_) => String::from_str("Could not read cached test result: "),
        TestStatus::Indeterminate { exit_code } => {
            let mut r = String::from_str("Exit code indicated to skip this commit (exit code ");
            let code = format_i64(*exit_code as i64);
            r.append(code.as_str());
            r.append("): ");
            r
        },
        TestStatus::Abort { exit_code } => {
            let mut r = String::from_str("Exit code indicated to abort testing (exit code ");
            let code = format_i64(*exit_code as i64);
            r.append(code.as_str());
            r.append("): ");
            r
        },
        TestStatus::Failed { cached, exit_code, interactive } => {
            let ghost words: Seq<Seq<char>> = Seq::empty();
            let mut joined = String::new();
            let mut count: usize = 0;
            if *cached {
                push_word(&mut joined, count, Ghost(words), "cached");
                proof {
                    words = words.push("cached"@);
                }
                count = count + 1;
            }
            let mut code = String::from_str("exit code ");
            let digits = format_i64(*exit_code as i64);
            code.append(digits.as_str());
            push_word(&mut joined, count, Ghost(words), code.as_str());
            proof {
                words = words.push(code@);
            }
            count = count + 1;
            if *interactive {
                push_word(&mut joined, count, Ghost(words), "interactive");
                proof {
                    words = words.push("interactive"@);
                }
            }
            assert(words =~= failed_words(*cached, *exit_code, *interactive));
            let mut r = String::from_str("Failed (");
            r.append(joined.as_str());
            r.append("): ");
            r
        },
        TestStatus::Passed { cached, fixed_tree_oid, interactive } => {
            let ghost words: Seq<Seq<char>> = Seq::empty();
            let mut joined = String::new();
            let mut count: usize = 0;
            if *cached {
                push_word(&mut joined, count, Ghost(words), "cached");
                proof {
                    words = words.push("cached"@);
                }
                count = count + 1;
            }
            if fixed_tree_oid.is_some() {
                push_word(&mut joined, count, Ghost(words), "fixed");
                proof {
                    words = words.push("fixed"@);
                }
                count = count + 1;
            }
            if *interactive {
                push_word(&mut joined, count, Ghost(words), "interactive");
                proof {
                    words = words.push("interactive"@);
                }
                count = count + 1;
            }
            assert(words =~= passed_words(*cached, fixed_tree_oid is Some, *interactive));
            let mut r = String::from_str("Passed");
            if count > 0 {
                r.append(" (");
                r.append(joined.as_str());
                r.append(")");
            }
            r.append(": ");
            r
        },
    }
}

/// How many lines of output are kept at each end when it is shortened.
pub const NUM_CONTEXT_LINES: usize = 5;

/// The views of a list of strings.
pub open spec fn views(lines: Seq<String>) -> Seq<Seq<char>> {
    lines.map_values(|l: String| l@)
}

/// The marker that stands for `n` lines left out.
pub open spec fn more_lines_marker(n: nat) -> Seq<char> {
    "<"@ + crate::text::dec(n) + " more lines>"@
}

/// The output lines to show at `verbosity`: none without output; a marker
/// for no output; all of them at full output or when there are at most ten;
/// else the first five, a marker for the lines left out, and the last five.
pub open spec fn abbreviated(lines: Seq<Seq<char>>, verbosity: Verbosity) -> Seq<Seq<char>> {
    if verbosity == Verbosity::NoOutput {
        Seq::empty()
    } else if lines.len() == 0 {
        seq!["<no output>"@]
    } else if lines.len() <= 2 * NUM_CONTEXT_LINES || verbosity == Verbosity::FullOutput {
        lines
    } else {
        lines.subrange(0, NUM_CONTEXT_LINES as int) + seq![
            more_lines_marker((lines.len() - 2 * NUM_CONTEXT_LINES) as nat),
        ] + lines.subrange(lines.len() - NUM_CONTEXT_LINES, lines.len() as int)
    }
}

fn append_lines(r: &mut Vec<String>, lines: &Vec<String>, from: usize, to: usize)
    requires
        from <= to <= lines@.len(),
    ensures
        views(final(r)@) == views(old(r)@) + views(lines@).subrange(from as int, to as int),
{
    let mut i: usize = from;
    while i < to
        invariant
            from <= i <= to <= lines@.len(),
            views(r@) == views(old(r)@) + views(lines@).subrange(from as int, i as int),
        decreases to - i,
    {
        let ghost prev = r@;
        r.push(lines[i].clone());
        proof {
            assert(views(r@) =~= views(prev).push(lines@[i as int]@));
            assert(views(lines@).subrange(from as int, i + 1) =~= views(lines@).subrange(
                from as int,
                i as int,
            ).push(lines@[i as int]@));
            assert(views(r@) =~= views(old(r)@) + views(lines@).subrange(from as int, i + 1));
        }
        i = i + 1;
    }
}

/// Shortens a test's output lines for display at `verbosity`.
pub fn abbreviate_lines(lines: &Vec<String>, verbosity: Verbosity) -> (r: Vec<String>)
    ensures
        views(r@) == abbreviated(views(lines@), verbosity),
{
    let mut r: Vec<String> = Vec::new();
    let n = lines.len();
    if verbosity == Verbosity::NoOutput {
        assert(views(r@) =~= Seq::<Seq<char>>::empty());
        return r;
    }
    if n == 0 {
        r.push(String::from_str("<no output>"));
        assert(views(r@) =~= seq!["<no output>"@]);
        return r;
    }
    if n <= 2 * NUM_CONTEXT_LINES || verbosity == Verbosity::FullOutput {
        append_lines(&mut r, lines, 0, n);
        assert(views(r@) =~= views(lines@));
        return r;
    }
    append_lines(&mut r, lines, 0, NUM_CONTEXT_LINES);
    let missing = n - 2 * NUM_CONTEXT_LINES;
    let mut marker = String::from_str("<");
    let digits = crate::text::format_u64(missing as u64);
    marker.append(digits.as_str());
    marker.append(" more lines>");
    let ghost prev = r@;
    r.push(marker);
    assert(views(r@) =~= views(prev).push(marker@));
    append_lines(&mut r, lines, n - NUM_CONTEXT_LINES, n);
    assert(views(r@) =~= abbreviated(views(lines@), verbosity));
    r
}

} // verus!

//! The working-directory protocol: which lock a worker takes, which steps
//! prepare its directory, and what a failed preparation means for the job.

use vstd::prelude::*;
use crate::options::ExecutionStrategy;
use crate::status::TestStatus;
use crate::text::{dec, format_u64};
use crate::status::views;

verus! {

/// One step that prepares a working directory for a commit.
#[derive(Clone, Copy, Debug, PartialEq, Eq, Structural)]
pub enum PrepareStep {
    /// Reset the repository's working copy hard to the commit.
    ResetHard,
    /// Create the worker's worktree, detached.
    AddWorktree,
    /// Check the commit out by force in the worker's worktree.
    CheckoutInWorktree,
}

/// Why a working directory could not be prepared.
#[derive(Clone, Debug, PartialEq, Eq)]
pub enum PrepareWorkingDirectoryError {
    /// The lock at this path is held by another holder.
    LockFailed(String),
    /// The repository has no working copy.
    NoWorkingCopy,
    /// Checking out this commit failed.
    CheckoutFailed(String),
    /// Creating the worktree at this path failed.
    CreateWorktreeFailed(String),
}

/// The name of the lock file that guards a worker's working directory.
pub open spec fn lock_name_of(strategy: ExecutionStrategy, worker_id: nat) -> Seq<char> {
    match strategy {
        ExecutionStrategy::WorkingCopy => "working-copy.lock"@,
        ExecutionStrategy::Worktree => "worktree-"@ + dec(worker_id) + ".lock"@,
    }
}

/// The name of the lock file that guards a worker's working directory:
/// one for the working copy, one per worker for worktrees.
pub fn working_directory_lock_name(strategy: ExecutionStrategy, worker_id: usize) -> (r: String)
    ensures
        r@ == lock_name_of(strategy, worker_id as nat),
{
    match strategy {
        ExecutionStrategy::WorkingCopy => String::from_str("working-copy.lock"),
        ExecutionStrategy::Worktree => {
            let mut r = String::from_str("worktree-");
            let id = format_u64(worker_id as u64);
            r.append(id.as_str());
            r.append(".lock");
            r
        },
    }
}

/// The directory name of a worker's worktree.
pub fn worktree_dir_name(worker_id: usize) -> (r: String)
    ensures
        r@ == "testing-worktree-"@ + dec(worker_id as nat),
{
    let mut r = String::from_str("testing-worktree-");
    let id = format_u64(worker_id as u64);
    r.append(id.as_str());
    r
}

/// The steps that prepare a working directory: a hard reset of the working
/// copy; or, for a worktree, its creation where it does not exist yet, then
/// a checkout in it.
pub open spec fn prepare_steps_of(strategy: ExecutionStrategy, worktree_exists: bool) -> Seq<
    PrepareStep,
> {
    match strategy {
        ExecutionStrategy::WorkingCopy => seq![PrepareStep::ResetHard],
        ExecutionStrategy::Worktree => if worktree_exists {
            seq![PrepareStep::CheckoutInWorktree]
        } else {
            seq![PrepareStep::AddWorktree, PrepareStep::CheckoutInWorktree]
        },
    }
}

/// The steps that prepare a working directory, in order. An existing
/// worktree is not created again.
pub fn prepare_steps(strategy: ExecutionStrategy, worktree_exists: bool) -> (r: Vec<PrepareStep>)
    ensures
        r@ == prepare_steps_of(strategy, worktree_exists),
{
    let mut r: Vec<PrepareStep> = Vec::new();
    match strategy {
        ExecutionStrategy::WorkingCopy => r.push(PrepareStep::ResetHard),
        ExecutionStrategy::Worktree => {
            if !worktree_exists {
                r.push(PrepareStep::AddWorktree);
            }
            r.push(PrepareStep::CheckoutInWorktree);
        },
    }
    assert(r@ =~= prepare_steps_of(strategy, worktree_exists));
    r
}

/// The arguments to `git` for one step.
pub open spec fn step_args_of(step: PrepareStep, worktree_dir: Seq<char>, commit: Seq<char>) -> Seq<
    Seq<char>,
> {
    match step {
        PrepareStep::ResetHard => seq!["reset"@, "--hard"@, commit],
        PrepareStep::AddWorktree => seq!["worktree"@, "add"@, worktree_dir, "--force"@, "--detach"@],
        PrepareStep::CheckoutInWorktree => seq![
            "-C"@,
            worktree_dir,
            "checkout"@,
            "--force"@,
            commit,
        ],
    }
}

/// The arguments to `git` for one step, for the worktree at
/// `worktree_dir` and the commit `commit`.
pub fn step_args(step: PrepareStep, worktree_dir: &str, commit: &str) -> (r: Vec<String>)
    ensures
        views(r@) == step_args_of(step, worktree_dir@, commit@),
{
    let mut r: Vec<String> = Vec::new();
    match step {
        PrepareStep::ResetHard => {
            r.push(String::from_str("reset"));
            r.push(String::from_str("--hard"));
            r.push(String::from_str(commit));
        },
        PrepareStep::AddWorktree => {
            r.push(String::from_str("worktree"));
            r.push(String::from_str("add"));
            r.push(String::from_str(worktree_dir));
            r.push(String::from_str("--force"));
            r.push(String::from_str("--detach"));
        },
        PrepareStep::CheckoutInWorktree => {
            r.push(String::from_str("-C"));
            r.push(String::from_str(worktree_dir));
            r.push(String::from_str("checkout"));
            r.push(String::from_str("--force"));
            r.push(String::from_str(commit));
        },
    }
    assert(views(r@) =~= step_args_of(step, worktree_dir@, commit@));
    r
}

/// The outcome of a job whose working directory could not be prepared: a
/// held lock counts as a test already in progress, anything else as a
/// failed checkout.
pub fn status_for_prepare_error(err: &PrepareWorkingDirectoryError) -> (r: TestStatus)
    ensures
        err is LockFailed ==> r == TestStatus::AlreadyInProgress,
        !(err is LockFailed) ==> r == TestStatus::CheckoutFailed,
{
    match err {
        PrepareWorkingDirectoryError::LockFailed(_) => TestStatus::AlreadyInProgress,
        _ => TestStatus::CheckoutFailed,
    }
}

/// The icon of a finished job in the progress display.
#[derive(Clone, Copy, Debug, PartialEq, Eq, Structural)]
pub enum ProgressIcon {
    Success,
    Warning,
    Failure,
}

/// The progress icon of an outcome: passes succeed; failures, aborts and
/// signals fail; anything else warns.
pub fn progress_icon(status: &TestStatus) -> (r: ProgressIcon)
    ensures
        status is Passed ==> r == ProgressIcon::Success,
        (status is Failed || status is Abort || status is TerminatedBySignal) ==> r
            == ProgressIcon::Failure,
        (status is CheckoutFailed || status is SpawnTestFailed || status is AlreadyInProgress
            || status is ReadCacheFailed || status is Indeterminate) ==> r == ProgressIcon::Warning,
{
    match status {
        TestStatus::Passed { .. } => ProgressIcon::Success,
        TestStatus::Failed { .. } | TestStatus::Abort { .. } | TestStatus::TerminatedBySignal => {
            ProgressIcon::Failure
        },
        _ => ProgressIcon::Warning,
    }
}

/// Why testing in the working copy could not start.
#[derive(Clone, Debug, PartialEq, Eq)]
pub enum AbortTrapError {
    /// An operation of this kind (a rebase, a merge) is already underway.
    OperationInProgress(String),
    /// No commit is checked out.
    NoHead,
}

/// Whether to set the abort trap: a rebase started before testing in the
/// working copy, so that an interrupted run leaves the repository in a state
/// the user has to abort. Worktrees need none; the working copy needs no
/// operation underway and a commit checked out.
pub fn abort_trap_decision(
    strategy: ExecutionStrategy,
    operation_in_progress: Option<String>,
    head_oid: Option<String>,
) -> (r: Result<bool, AbortTrapError>)
    ensures
        strategy == ExecutionStrategy::Worktree ==> r == Ok::<bool, AbortTrapError>(false),
        strategy == ExecutionStrategy::WorkingCopy && operation_in_progress is Some ==> r == Err::<
            bool,
            AbortTrapError,
        >(AbortTrapError::OperationInProgress(operation_in_progress->0)),
        strategy == ExecutionStrategy::WorkingCopy && operation_in_progress is None && head_oid is None
            ==> r == Err::<bool, AbortTrapError>(AbortTrapError::NoHead),
        strategy == ExecutionStrategy::WorkingCopy && operation_in_progress is None && head_oid is Some
            ==> r == Ok::<bool, AbortTrapError>(true),
{
    match strategy {
        ExecutionStrategy::Worktree => Ok(false),
        ExecutionStrategy::WorkingCopy => match operation_in_progress {
            Some(op) => Err(AbortTrapError::OperationInProgress(op)),
            None => match head_oid {
                None => Err(AbortTrapError::NoHead),
                Some(_) => Ok(true),
            },
        },
    }
}

} // verus!

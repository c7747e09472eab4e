use git_branchless_test::{
    abort_trap_decision, prepare_steps, progress_icon, status_for_prepare_error, step_args,
    working_directory_lock_name, worktree_dir_name, AbortTrapError, ExecutionStrategy,
    PrepareStep, PrepareWorkingDirectoryError, ProgressIcon, TestStatus,
};

#[test]
fn test_lock_prepared_working_directory() {
    // The working copy has one lock for every worker; each worktree its own.
    assert_eq!(working_directory_lock_name(ExecutionStrategy::WorkingCopy, 1), "working-copy.lock");
    assert_eq!(working_directory_lock_name(ExecutionStrategy::WorkingCopy, 2), "working-copy.lock");
    assert_eq!(working_directory_lock_name(ExecutionStrategy::Worktree, 1), "worktree-1.lock");
    assert_ne!(
        working_directory_lock_name(ExecutionStrategy::Worktree, 1),
        working_directory_lock_name(ExecutionStrategy::Worktree, 2)
    );
    // A second holder of a taken lock gets no directory.
    let err = PrepareWorkingDirectoryError::LockFailed("test/locks/working-copy.lock".to_string());
    assert_eq!(status_for_prepare_error(&err), TestStatus::AlreadyInProgress);
}

#[test]
fn existing_worktree_is_not_created_again() {
    assert_eq!(prepare_steps(ExecutionStrategy::Worktree, true), vec![PrepareStep::CheckoutInWorktree]);
    assert_eq!(
        prepare_steps(ExecutionStrategy::Worktree, false),
        vec![PrepareStep::AddWorktree, PrepareStep::CheckoutInWorktree]
    );
    assert_eq!(prepare_steps(ExecutionStrategy::WorkingCopy, false), vec![PrepareStep::ResetHard]);
    assert_eq!(worktree_dir_name(3), "testing-worktree-3");
}

#[test]
fn git_arguments_of_steps() {
    assert_eq!(step_args(PrepareStep::ResetHard, "w", "abc"), vec!["reset", "--hard", "abc"]);
    assert_eq!(
        step_args(PrepareStep::AddWorktree, "w", "abc"),
        vec!["worktree", "add", "w", "--force", "--detach"]
    );
    assert_eq!(
        step_args(PrepareStep::CheckoutInWorktree, "w", "abc"),
        vec!["-C", "w", "checkout", "--force", "abc"]
    );
}

#[test]
fn failed_preparation_outcomes() {
    assert_eq!(status_for_prepare_error(&PrepareWorkingDirectoryError::NoWorkingCopy), TestStatus::CheckoutFailed);
    assert_eq!(
        status_for_prepare_error(&PrepareWorkingDirectoryError::CreateWorktreeFailed("w".to_string())),
        TestStatus::CheckoutFailed
    );
    assert_eq!(
        status_for_prepare_error(&PrepareWorkingDirectoryError::CheckoutFailed("abc".to_string())),
        TestStatus::CheckoutFailed
    );
}

#[test]
fn progress_icons() {
    assert_eq!(progress_icon(&TestStatus::TerminatedBySignal), ProgressIcon::Failure);
    assert_eq!(progress_icon(&TestStatus::AlreadyInProgress), ProgressIcon::Warning);
    assert_eq!(
        progress_icon(&TestStatus::Passed { cached: false, fixed_tree_oid: None, interactive: false }),
        ProgressIcon::Success
    );
}

#[test]
fn abort_trap() {
    assert_eq!(abort_trap_decision(ExecutionStrategy::Worktree, Some("rebase".to_string()), None), Ok(false));
    assert_eq!(
        abort_trap_decision(ExecutionStrategy::WorkingCopy, Some("rebase".to_string()), Some("h".to_string())),
        Err(AbortTrapError::OperationInProgress("rebase".to_string()))
    );
    assert_eq!(abort_trap_decision(ExecutionStrategy::WorkingCopy, None, None), Err(AbortTrapError::NoHead));
    assert_eq!(abort_trap_decision(ExecutionStrategy::WorkingCopy, None, Some("h".to_string())), Ok(true));
}

//! Run a user-provided command on each of a set of commits, with a
//! tree-keyed result cache, parallel workers and an optional directed search
//! for the first failing commit.
//!
//! The library holds the decisions: how exit codes are classified, how cache
//! slots are named and read, how options resolve, which commits the search
//! probes next, how the scheduler reacts to each result, how fixes are planned
//! and how the summary is tallied. Process spawning, locking and file access
//! are left to the caller.

pub mod cache;
pub mod fix;
pub mod navigation;
pub mod options;
pub mod ordered;
pub mod report;
pub mod scheduler;
pub mod search;
pub mod status;
pub mod text;
pub mod workdir;

pub use cache::{read_slot, slot_dir, slot_file, tree_dir, SlotContents, SlotOutcome};
pub use fix::{build_fix_plan, changed_fixes, fix_mapping, fixed_trees, Fix, PlanStep};
pub use navigation::{
    checkout, next, prev, Advance, ChildChoice, NavigationAction, NavigationError, Towards,
};
pub use options::{
    alias_config_key, parse_execution_strategy, resolve_test_command_alias, ConfigError,
    ConfigValues, ExecutionStrategy, RawTestOptions, ResolvedTestOptions, SearchStrategy,
};
pub use report::{counts_line, pluralize, summary_exit_code, tally, tested_line, Tally};
pub use scheduler::{search_order, Action, Scheduler, TestingAbortedError};
pub use search::{Search, SearchGraph, Status, Strategy};
pub use status::{
    abbreviate_lines, classify_exit, fixed_tree, record_for, status_from_record,
    test_status_description, Bucket, CacheRecord, TestStatus, Verbosity, WorkingCopyChanges, ABORT_EXIT_CODE, INDETERMINATE_EXIT_CODE,
};
pub use text::{command_slug, format_i64, format_u64, shell_escape};
pub use workdir::{
    abort_trap_decision, prepare_steps, progress_icon, status_for_prepare_error, step_args,
    working_directory_lock_name, worktree_dir_name, AbortTrapError, PrepareStep,
    PrepareWorkingDirectoryError, ProgressIcon,
};

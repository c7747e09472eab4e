use git_branchless_test::{
    classify_exit, read_slot, record_for, slot_dir, slot_file, tree_dir, CacheRecord,
    SlotContents, SlotOutcome, TestStatus,
};

#[test]
fn slot_depends_on_tree_and_command() {
    let a = slot_dir(".git/branchless/test", "0123abcd", "cargo test");
    let b = slot_dir(".git/branchless/test", "0123abcd", "cargo test");
    assert_eq!(a, b);
    assert_eq!(a, ".git/branchless/test/0123abcd/cargo__test");
    assert_ne!(a, slot_dir(".git/branchless/test", "ffff", "cargo test"));
    assert_eq!(slot_file(&a, "result"), ".git/branchless/test/0123abcd/cargo__test/result");
    assert_eq!(tree_dir("t", "0123abcd"), "t/0123abcd");
}

#[test]
fn busy_slot() {
    assert_eq!(read_slot(false, SlotContents::Missing), SlotOutcome::Busy(TestStatus::AlreadyInProgress));
}

#[test]
fn crash_recovery_empty_result() {
    // An empty `result` with the lock free: the slot is handed over again.
    assert_eq!(read_slot(true, SlotContents::Empty), SlotOutcome::Acquired);
    // The run then passes and writes a complete record.
    let status = classify_exit(Some(0), None, false);
    assert_eq!(status, TestStatus::Passed { cached: false, fixed_tree_oid: None, interactive: false });
    let record = record_for(&"true".to_string(), 0, &status, false);
    assert_eq!(record.command, "true");
    assert_eq!(record.exit_code, 0);
}

#[test]
fn cleaned_slot_shows_no_cached_data() {
    assert_eq!(read_slot(true, SlotContents::Missing), SlotOutcome::Acquired);
}

#[test]
fn unparsable_record() {
    assert_eq!(
        read_slot(true, SlotContents::Unparsable("expected value".to_string())),
        SlotOutcome::Cached(TestStatus::ReadCacheFailed("expected value".to_string()))
    );
}

#[test]
fn second_run_reads_cached_results() {
    for code in [0, 1, 42] {
        let status = classify_exit(Some(code), None, false);
        let record = record_for(&"make".to_string(), code, &status, false);
        match read_slot(true, SlotContents::Record(record)) {
            SlotOutcome::Cached(s) => assert!(s.cached()),
            other => panic!("unexpected {other:?}"),
        }
    }
    let record = CacheRecord {
        command: "make".to_string(),
        exit_code: 125,
        fixed_tree_oid: None,
        interactive: false,
    };
    assert_eq!(
        read_slot(true, SlotContents::Record(record)),
        SlotOutcome::Cached(TestStatus::Indeterminate { exit_code: 125 })
    );
}

use git_branchless_test::{
    abbreviate_lines, classify_exit, fixed_tree, record_for, status_from_record,
    test_status_description, Bucket, CacheRecord, TestStatus, Verbosity, WorkingCopyChanges,
    ABORT_EXIT_CODE, INDETERMINATE_EXIT_CODE,
};

#[test]
fn exit_code_mapping() {
    assert_eq!(
        classify_exit(Some(0), None, false),
        TestStatus::Passed { cached: false, fixed_tree_oid: None, interactive: false }
    );
    assert_eq!(
        classify_exit(Some(INDETERMINATE_EXIT_CODE), Some("t".to_string()), false),
        TestStatus::Indeterminate { exit_code: 125 }
    );
    assert_eq!(classify_exit(Some(ABORT_EXIT_CODE), None, true), TestStatus::Abort { exit_code: 127 });
    assert_eq!(
        classify_exit(Some(1), None, true),
        TestStatus::Failed { cached: false, exit_code: 1, interactive: true }
    );
    assert_eq!(
        classify_exit(Some(-3), None, false),
        TestStatus::Failed { cached: false, exit_code: -3, interactive: false }
    );
    assert_eq!(classify_exit(None, None, false), TestStatus::TerminatedBySignal);
}

#[test]
fn record_round_trip_marks_cached() {
    let command = "cargo test".to_string();
    let status = classify_exit(Some(0), Some("abc123".to_string()), false);
    let record = record_for(&command, 0, &status, false);
    assert_eq!(
        record,
        CacheRecord {
            command: command.clone(),
            exit_code: 0,
            fixed_tree_oid: Some("abc123".to_string()),
            interactive: false,
        }
    );
    let back = status_from_record(&record);
    assert_eq!(
        back,
        TestStatus::Passed { cached: true, fixed_tree_oid: Some("abc123".to_string()), interactive: false }
    );
    assert!(back.cached());

    let failed = classify_exit(Some(2), None, true);
    let record = record_for(&command, 2, &failed, true);
    assert_eq!(record.fixed_tree_oid, None);
    assert_eq!(
        status_from_record(&record),
        TestStatus::Failed { cached: true, exit_code: 2, interactive: true }
    );
}

#[test]
fn records_of_special_codes() {
    let record = CacheRecord {
        command: "x".to_string(),
        exit_code: 125,
        fixed_tree_oid: None,
        interactive: false,
    };
    assert_eq!(status_from_record(&record), TestStatus::Indeterminate { exit_code: 125 });
    let record = CacheRecord { exit_code: 127, ..record };
    assert_eq!(status_from_record(&record), TestStatus::Abort { exit_code: 127 });
}

#[test]
fn fixed_tree_only_when_changed_and_clean() {
    let commit_tree = "aaa".to_string();
    assert_eq!(fixed_tree(WorkingCopyChanges::Unstaged, &commit_tree, Some("bbb".to_string())), Some("bbb".to_string()));
    assert_eq!(fixed_tree(WorkingCopyChanges::Clean, &commit_tree, Some("aaa".to_string())), None);
    assert_eq!(fixed_tree(WorkingCopyChanges::Staged, &commit_tree, Some("bbb".to_string())), None);
    assert_eq!(fixed_tree(WorkingCopyChanges::Conflicts, &commit_tree, Some("bbb".to_string())), None);
    assert_eq!(fixed_tree(WorkingCopyChanges::Clean, &commit_tree, None), None);
}

#[test]
fn buckets_and_icons() {
    let passed = TestStatus::Passed { cached: false, fixed_tree_oid: None, interactive: false };
    let failed = TestStatus::Failed { cached: true, exit_code: 1, interactive: false };
    let aborted = TestStatus::Abort { exit_code: 127 };
    assert_eq!(passed.bucket(), Bucket::Passed);
    assert_eq!(failed.bucket(), Bucket::Failed);
    assert_eq!(aborted.bucket(), Bucket::Failed);
    assert_eq!(TestStatus::TerminatedBySignal.bucket(), Bucket::Skipped);
    assert_eq!(TestStatus::ReadCacheFailed("bad".to_string()).bucket(), Bucket::Skipped);
    assert_eq!(passed.get_icon(), "✓");
    assert_eq!(aborted.get_icon(), "X");
    assert_eq!(TestStatus::CheckoutFailed.get_icon(), "!");
}

#[test]
fn descriptions() {
    assert_eq!(test_status_description(&TestStatus::CheckoutFailed), "Failed to check out: ");
    assert_eq!(
        test_status_description(&TestStatus::SpawnTestFailed("no such file".to_string())),
        "Failed to spawn test: no such file: "
    );
    assert_eq!(
        test_status_description(&TestStatus::Indeterminate { exit_code: 125 }),
        "Exit code indicated to skip this commit (exit code 125): "
    );
    assert_eq!(
        test_status_description(&TestStatus::Abort { exit_code: 127 }),
        "Exit code indicated to abort testing (exit code 127): "
    );
    assert_eq!(
        test_status_description(&TestStatus::Failed { cached: true, exit_code: 1, interactive: true }),
        "Failed (cached, exit code 1, interactive): "
    );
    assert_eq!(
        test_status_description(&TestStatus::Failed { cached: false, exit_code: 3, interactive: false }),
        "Failed (exit code 3): "
    );
    assert_eq!(
        test_status_description(&TestStatus::Passed { cached: false, fixed_tree_oid: None, interactive: false }),
        "Passed: "
    );
    assert_eq!(
        test_status_description(&TestStatus::Passed {
            cached: true,
            fixed_tree_oid: Some("t".to_string()),
            interactive: false
        }),
        "Passed (cached, fixed): "
    );
}

#[test]
fn abbreviated_output() {
    let lines: Vec<String> = (1..=12).map(|i| format!("line {i}")).collect();
    assert!(abbreviate_lines(&lines, Verbosity::NoOutput).is_empty());
    assert_eq!(abbreviate_lines(&lines, Verbosity::FullOutput), lines);
    let short = abbreviate_lines(&lines, Verbosity::PartialOutput);
    assert_eq!(short.len(), 11);
    assert_eq!(short[0], "line 1");
    assert_eq!(short[4], "line 5");
    assert_eq!(short[5], "<2 more lines>");
    assert_eq!(short[6], "line 8");
    assert_eq!(short[10], "line 12");
    let ten: Vec<String> = lines[..10].to_vec();
    assert_eq!(abbreviate_lines(&ten, Verbosity::PartialOutput), ten);
    assert_eq!(abbreviate_lines(&Vec::new(), Verbosity::PartialOutput), vec!["<no output>".to_string()]);
}

#[test]
fn verbosity_from_flag_count() {
    assert_eq!(Verbosity::from_count(0), Verbosity::NoOutput);
    assert_eq!(Verbosity::from_count(1), Verbosity::PartialOutput);
    assert_eq!(Verbosity::from_count(2), Verbosity::FullOutput);
    assert_eq!(Verbosity::from_count(9), Verbosity::FullOutput);
}

#[test]
fn verbosity_from_u8() {
    assert_eq!(Verbosity::from(0u8), Verbosity::NoOutput);
    assert_eq!(Verbosity::from(1u8), Verbosity::PartialOutput);
    assert_eq!(Verbosity::from(3u8), Verbosity::FullOutput);
}

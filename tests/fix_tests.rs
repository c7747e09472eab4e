use indexmap::IndexMap;
use git_branchless_test::{build_fix_plan, changed_fixes, fix_mapping, fixed_trees, Fix, PlanStep, TestStatus};

#[test]
fn dry_run_plans_one_fix() {
    let mut results: IndexMap<usize, TestStatus> = IndexMap::new();
    results.insert(0, TestStatus::Passed { cached: false, fixed_tree_oid: Some("tree2".to_string()), interactive: false });
    results.insert(1, TestStatus::Passed { cached: false, fixed_tree_oid: None, interactive: false });
    results.insert(2, TestStatus::Failed { cached: false, exit_code: 1, interactive: false });
    assert_eq!(fixed_trees(&results), vec![(0, "tree2".to_string())]);

    let fixes = changed_fixes(vec![
        Fix {
            original_commit_oid: "aaa".to_string(),
            original_commit_parent_oids: vec!["ppp".to_string()],
            fixed_commit_oid: "bbb".to_string(),
        },
        Fix {
            original_commit_oid: "ccc".to_string(),
            original_commit_parent_oids: vec!["aaa".to_string()],
            fixed_commit_oid: "ccc".to_string(),
        },
    ]);
    assert_eq!(fixes.len(), 1);
    assert_eq!(fix_mapping(&fixes), vec![("aaa".to_string(), "bbb".to_string())]);

    let plan = build_fix_plan(&fixes, &vec![
        ("aaa".to_string(), vec!["ppp".to_string()]),
        ("ddd".to_string(), vec!["aaa".to_string()]),
    ]);
    assert_eq!(
        plan,
        vec![
            PlanStep::Replace { original: "aaa".to_string(), replacement: "bbb".to_string() },
            PlanStep::MoveSubtree { commit: "aaa".to_string(), parents: vec!["ppp".to_string()] },
            PlanStep::Replace { original: "ddd".to_string(), replacement: "ddd".to_string() },
            PlanStep::MoveSubtree { commit: "ddd".to_string(), parents: vec!["aaa".to_string()] },
        ]
    );
}

#[test]
fn nothing_to_fix() {
    assert!(fixed_trees(&IndexMap::new()).is_empty());
    assert!(build_fix_plan(&Vec::new(), &Vec::new()).is_empty());
}

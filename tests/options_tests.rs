use git_branchless_test::{
    alias_config_key, parse_execution_strategy, resolve_test_command_alias, ConfigError,
    ConfigValues, ExecutionStrategy, RawTestOptions, ResolvedTestOptions, SearchStrategy,
    Verbosity,
};

fn raw() -> RawTestOptions {
    RawTestOptions {
        exec_command: Some("true".to_string()),
        command: None,
        dry_run: false,
        strategy: None,
        search: None,
        bisect: false,
        interactive: false,
        jobs: None,
        verbosity: Verbosity::NoOutput,
        apply_fixes: false,
        force_on_disk: false,
    }
}

fn config() -> ConfigValues {
    ConfigValues { shell: None, alias_command: None, strategy: None, jobs: None }
}

#[test]
fn defaults_to_working_copy_and_one_job() {
    let r = ResolvedTestOptions::resolve(&raw(), &config(), 4).unwrap();
    assert_eq!(r.command, "true");
    assert_eq!(r.execution_strategy, ExecutionStrategy::WorkingCopy);
    assert_eq!(r.jobs, 1);
    assert_eq!(r.search_strategy, None);
}

#[test]
fn zero_jobs_means_physical_cpus() {
    let options = RawTestOptions { jobs: Some(0), ..raw() };
    let r = ResolvedTestOptions::resolve(&options, &config(), 8).unwrap();
    assert_eq!(r.jobs, 8);
    assert_eq!(r.execution_strategy, ExecutionStrategy::Worktree);
    assert_eq!(ResolvedTestOptions::resolve(&options, &config(), 0), Err(ConfigError::NoCpus));
    let (here, cpus) = ResolvedTestOptions::resolve_here(&options, &config());
    if cpus > 0 {
        assert_eq!(here.unwrap().jobs, cpus);
    }
}

#[test]
fn interactive_with_jobs_is_refused() {
    let options = RawTestOptions { interactive: true, jobs: Some(2), ..raw() };
    let err = ResolvedTestOptions::resolve(&options, &config(), 4).unwrap_err();
    assert_eq!(err, ConfigError::JobsWithInteractive);
    assert_eq!(err.exit_code(), 1);
}

#[test]
fn interactive_runs_one_job_in_the_working_copy() {
    let options = RawTestOptions { interactive: true, exec_command: None, ..raw() };
    let cfg = ConfigValues { shell: Some("/bin/zsh".to_string()), strategy: Some("worktree".to_string()), ..config() };
    let r = ResolvedTestOptions::resolve(&options, &cfg, 4).unwrap();
    assert_eq!(r.command, "/bin/zsh");
    assert_eq!(r.jobs, 1);
    assert_eq!(r.execution_strategy, ExecutionStrategy::WorkingCopy);
    assert!(r.interactive);
    let options = RawTestOptions { interactive: true, strategy: Some(ExecutionStrategy::Worktree), ..raw() };
    assert_eq!(ResolvedTestOptions::resolve(&options, &config(), 4), Err(ConfigError::InteractiveWithWorktree));
}

#[test]
fn jobs_with_working_copy_is_refused() {
    let options = RawTestOptions { jobs: Some(3), strategy: Some(ExecutionStrategy::WorkingCopy), ..raw() };
    assert_eq!(ResolvedTestOptions::resolve(&options, &config(), 4), Err(ConfigError::JobsWithWorkingCopy));
    let options = RawTestOptions { jobs: Some(3), ..raw() };
    let r = ResolvedTestOptions::resolve(&options, &config(), 4).unwrap();
    assert_eq!((r.jobs, r.execution_strategy), (3, ExecutionStrategy::Worktree));
}

#[test]
fn configured_strategy_and_jobs() {
    let cfg = ConfigValues { strategy: Some("WorkTree".to_string()), jobs: Some(6), ..config() };
    let r = ResolvedTestOptions::resolve(&raw(), &cfg, 4).unwrap();
    assert_eq!((r.jobs, r.execution_strategy), (6, ExecutionStrategy::Worktree));
    let cfg = ConfigValues { strategy: Some("bogus".to_string()), ..config() };
    assert_eq!(
        ResolvedTestOptions::resolve(&raw(), &cfg, 4),
        Err(ConfigError::InvalidStrategyConfig("bogus".to_string()))
    );
    let cfg = ConfigValues { jobs: Some(-1), ..config() };
    assert_eq!(ResolvedTestOptions::resolve(&raw(), &cfg, 4), Err(ConfigError::InvalidJobsConfig(-1)));
}

#[test]
fn command_from_alias() {
    let options = RawTestOptions { exec_command: None, command: Some("lint".to_string()), ..raw() };
    assert_eq!(
        ResolvedTestOptions::resolve(&options, &config(), 4),
        Err(ConfigError::AliasUndefined("lint".to_string()))
    );
    let cfg = ConfigValues { alias_command: Some("cargo clippy".to_string()), ..config() };
    assert_eq!(ResolvedTestOptions::resolve(&options, &cfg, 4).unwrap().command, "cargo clippy");
    let options = RawTestOptions { exec_command: None, ..raw() };
    assert_eq!(ResolvedTestOptions::resolve(&options, &config(), 4), Err(ConfigError::NoDefaultCommand));
    let options = RawTestOptions { command: Some("lint".to_string()), ..raw() };
    assert_eq!(ResolvedTestOptions::resolve(&options, &config(), 4), Err(ConfigError::ConflictingCommand));
}

#[test]
fn alias_keys_and_lookup() {
    assert_eq!(alias_config_key(None), "branchless.test.alias.default");
    assert_eq!(alias_config_key(Some("lint")), "branchless.test.alias.lint");
    let alias = "lint".to_string();
    assert_eq!(resolve_test_command_alias(Some(&alias), Some("x".to_string())), Ok("x".to_string()));
    assert_eq!(resolve_test_command_alias(None, None), Err(ConfigError::NoDefaultCommand));
}

#[test]
fn bisect_and_fix_options() {
    let options = RawTestOptions { bisect: true, search: Some(SearchStrategy::Linear), ..raw() };
    assert_eq!(ResolvedTestOptions::resolve(&options, &config(), 4).unwrap().search_strategy, Some(SearchStrategy::Binary));
    let options = RawTestOptions { apply_fixes: true, force_on_disk: true, ..raw() };
    assert_eq!(ResolvedTestOptions::resolve(&options, &config(), 4), Err(ConfigError::OnDiskFixes));
}

#[test]
fn strategy_names() {
    assert_eq!(parse_execution_strategy("working-copy"), Some(ExecutionStrategy::WorkingCopy));
    assert_eq!(parse_execution_strategy("Working-Copy"), Some(ExecutionStrategy::WorkingCopy));
    assert_eq!(parse_execution_strategy("worktree"), Some(ExecutionStrategy::Worktree));
    assert_eq!(parse_execution_strategy("work tree"), None);
}

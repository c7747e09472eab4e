//! Resolving the test options: the command to run, where to run it, how
//! many jobs, and which search to drive.

use vstd::prelude::*;
use crate::status::Verbosity;

verus! {

/// Where the command runs.
#[derive(Clone, Copy, Debug, PartialEq, Eq, Structural)]
pub enum ExecutionStrategy {
    /// In the repository's own working copy; one job at a time.
    WorkingCopy,
    /// In a worktree per worker.
    Worktree,
}

/// Which search to drive over the commits.
#[derive(Clone, Copy, Debug, PartialEq, Eq, Structural)]
pub enum SearchStrategy {
    Linear,
    Reverse,
    Binary,
}

/// The options as given, before defaults and checks.
#[derive(Clone, Debug, PartialEq, Eq)]
pub struct RawTestOptions {
    /// The command given with `-x`.
    pub exec_command: Option<String>,
    /// The command alias given with `-c`.
    pub command: Option<String>,
    pub dry_run: bool,
    pub strategy: Option<ExecutionStrategy>,
    pub search: Option<SearchStrategy>,
    pub bisect: bool,
    pub interactive: bool,
    pub jobs: Option<usize>,
    pub verbosity: Verbosity,
    /// Whether to rewrite commits with what the command changed.
    pub apply_fixes: bool,
    /// Whether the rewrite was asked to happen on disk.
    pub force_on_disk: bool,
}

/// What the environment and the configuration hold for the options.
#[derive(Clone, Debug, PartialEq, Eq)]
pub struct ConfigValues {
    /// The user's shell, from `SHELL`.
    pub shell: Option<String>,
    /// The value under the alias key (see `alias_config_key`).
    pub alias_command: Option<String>,
    /// The value of `branchless.test.strategy`.
    pub strategy: Option<String>,
    /// The value of `branchless.test.jobs`.
    pub jobs: Option<i32>,
}

/// The options once resolved.
#[derive(Clone, Debug, PartialEq, Eq)]
pub struct ResolvedTestOptions {
    pub command: String,
    pub execution_strategy: ExecutionStrategy,
    pub search_strategy: Option<SearchStrategy>,
    pub dry_run: bool,
    pub interactive: bool,
    pub jobs: usize,
    pub verbosity: Verbosity,
    pub apply_fixes: bool,
}

/// Why the options could not be resolved.
#[derive(Clone, Debug, PartialEq, Eq)]
pub enum ConfigError {
    /// Both a command and an alias were given.
    ConflictingCommand,
    /// The named alias is not configured.
    AliasUndefined(String),
    /// No command, no alias, and no default alias.
    NoDefaultCommand,
    /// The configured strategy is not one of `working-copy`, `worktree`.
    InvalidStrategyConfig(String),
    /// The configured job count is negative.
    InvalidJobsConfig(i32),
    /// More than one job was asked for an interactive run.
    JobsWithInteractive,
    /// A worktree was asked for an interactive run.
    InteractiveWithWorktree,
    /// More than one job was asked with the working-copy strategy.
    JobsWithWorkingCopy,
    /// Fixes were asked to be applied on disk.
    OnDiskFixes,
    /// The machine reported no processor for `--jobs 0`.
    NoCpus,
}

impl ConfigError {
    /// The process exit code for the error.
    pub fn exit_code(&self) -> (r: i32)
        ensures
            r == 1,
    {
        1
    }
}

/// A character in ASCII lower case.
pub open spec fn ascii_lower(c: char) -> char {
    if 'A' <= c && c <= 'Z' {
        ((c as u8) + 32) as char
    } else {
        c
    }
}

/// Equality of two texts up to ASCII case.
pub open spec fn eq_ignore_ascii_case(a: Seq<char>, b: Seq<char>) -> bool {
    a.len() == b.len() && forall|i: int| 0 <= i < a.len() ==> ascii_lower(#[trigger] a[i]) == ascii_lower(b[i])
}

fn lower_char(c: char) -> (r: char)
    ensures
        r == ascii_lower(c),
{
    if 'A' <= c && c <= 'Z' {
        ((c as u8) + 32) as char
    } else {
        c
    }
}

fn equals_ignore_ascii_case(a: &str, b: &str) -> (r: bool)
    ensures
        r == eq_ignore_ascii_case(a@, b@),
{
    let n = a.unicode_len();
    if n != b.unicode_len() {
        return false;
    }
    let mut i: usize = 0;
    while i < n
        invariant
            n == a@.len(),
            n == b@.len(),
            i <= n,
            forall|j: int| 0 <= j < i ==> ascii_lower(#[trigger] a@[j]) == ascii_lower(b@[j]),
        decreases n - i,
    {
        if lower_char(a.get_char(i)) != lower_char(b.get_char(i)) {
            return false;
        }
        i = i + 1;
    }
    true
}

/// The strategy that a configuration value names, up to ASCII case.
pub open spec fn strategy_named(s: Seq<char>) -> Option<ExecutionStrategy> {
    if eq_ignore_ascii_case(s, "working-copy"@) {
        Some(ExecutionStrategy::WorkingCopy)
    } else if eq_ignore_ascii_case(s, "worktree"@) {
        Some(ExecutionStrategy::Worktree)
    } else {
        None
    }
}

/// Reads an execution strategy by name, `working-copy` or `worktree`, up
/// to ASCII case.
pub fn parse_execution_strategy(s: &str) -> (r: Option<ExecutionStrategy>)
    ensures
        r == strategy_named(s@),
{
    if equals_ignore_ascii_case(s, "working-copy") {
        Some(ExecutionStrategy::WorkingCopy)
    } else if equals_ignore_ascii_case(s, "worktree") {
        Some(ExecutionStrategy::Worktree)
    } else {
        None
    }
}

/// The configuration key of a command alias; `default` when none is given.
pub fn alias_config_key(alias: Option<&str>) -> (r: String)
    ensures
        r@ == "branchless.test.alias."@ + match alias {
            Some(a) => a@,
            None => "default"@,
        },
{
    let mut r = String::from_str("branchless.test.alias.");
    match alias {
        Some(a) => r.append(a),
        None => r.append("default"),
    }
    r
}

/// The command of an alias, given what the configuration holds under its
/// key: `alias` is `None` for the default alias.
pub fn resolve_test_command_alias(alias: Option<&String>, configured: Option<String>) -> (r: Result<
    String,
    ConfigError,
>)
    ensures
        configured is Some ==> r == Ok::<String, ConfigError>(configured->0),
        configured is None && alias is Some ==> r == Err::<String, ConfigError>(
            ConfigError::AliasUndefined(*alias->0),
        ),
        configured is None && alias is None ==> r == Err::<String, ConfigError>(
            ConfigError::NoDefaultCommand,
        ),
{
    match configured {
        Some(command) => Ok(command),
        None => match alias {
            Some(a) => Err(ConfigError::AliasUndefined(a.clone())),
            None => Err(ConfigError::NoDefaultCommand),
        },
    }
}

/// The command to run.
pub open spec fn command_choice(raw: RawTestOptions, config: ConfigValues) -> Result<
    String,
    ConfigError,
> {
    match (raw.exec_command, raw.command) {
        (Some(c), None) => Ok(c),
        (Some(_), Some(_)) => Err(ConfigError::ConflictingCommand),
        (None, alias) => if raw.interactive && alias is None && config.shell is Some {
            Ok(config.shell->0)
        } else {
            match config.alias_command {
                Some(c) => Ok(c),
                None => match alias {
                    Some(a) => Err(ConfigError::AliasUndefined(a)),
                    None => Err(ConfigError::NoDefaultCommand),
                },
            }
        },
    }
}

/// The strategy when none is given on the command line: the configured
/// one, else the working copy.
pub open spec fn configured_strategy(config: ConfigValues) -> Result<ExecutionStrategy, ConfigError> {
    match config.strategy {
        None => Ok(ExecutionStrategy::WorkingCopy),
        Some(s) => match strategy_named(s@) {
            Some(st) => Ok(st),
            None => Err(ConfigError::InvalidStrategyConfig(s)),
        },
    }
}

/// The job count and strategy, before a count of 0 is replaced.
pub open spec fn jobs_choice(
    raw: RawTestOptions,
    configured: ExecutionStrategy,
    configured_jobs: Option<usize>,
) -> Result<(usize, ExecutionStrategy), ConfigError> {
    if raw.interactive {
        if raw.jobs is Some && raw.jobs->0 != 1 {
            Err(ConfigError::JobsWithInteractive)
        } else if raw.strategy == Some(ExecutionStrategy::Worktree) {
            Err(ConfigError::InteractiveWithWorktree)
        } else {
            Ok((1usize, ExecutionStrategy::WorkingCopy))
        }
    } else {
        match raw.jobs {
            None => {
                let strategy = match raw.strategy {
                    Some(s) => s,
                    None => configured,
                };
                if strategy == ExecutionStrategy::WorkingCopy {
                    Ok((1usize, strategy))
                } else {
                    Ok(
                        (
                            match configured_jobs {
                                Some(j) => j,
                                None => 1usize,
                            },
                            strategy,
                        ),
                    )
                }
            },
            Some(j) => if j == 1 {
                Ok(
                    (
                        1usize,
                        match raw.strategy {
                            Some(s) => s,
                            None => configured,
                        },
                    ),
                )
            } else if raw.strategy == Some(ExecutionStrategy::WorkingCopy) {
                Err(ConfigError::JobsWithWorkingCopy)
            } else {
                Ok((j, ExecutionStrategy::Worktree))
            },
        }
    }
}

/// The resolved options, given what the configuration holds and how many
/// physical processors the machine has.
pub open spec fn resolution(raw: RawTestOptions, config: ConfigValues, physical_cpus: usize) -> Result<
    ResolvedTestOptions,
    ConfigError,
> {
    match command_choice(raw, config) {
        Err(e) => Err(e),
        Ok(command) => {
            let configured = if raw.strategy is Some {
                Ok(ExecutionStrategy::WorkingCopy)
            } else {
                configured_strategy(config)
            };
            match configured {
                Err(e) => Err(e),
                Ok(configured) => if config.jobs is Some && config.jobs->0 < 0 {
                    Err(ConfigError::InvalidJobsConfig(config.jobs->0))
                } else {
                    let configured_jobs = match config.jobs {
                        Some(j) => Some(j as usize),
                        None => None,
                    };
                    match jobs_choice(raw, configured, configured_jobs) {
                        Err(e) => Err(e),
                        Ok((jobs, strategy)) => if jobs == 0 && physical_cpus == 0 {
                            Err(ConfigError::NoCpus)
                        } else if raw.apply_fixes && raw.force_on_disk {
                            Err(ConfigError::OnDiskFixes)
                        } else {
                            Ok(
                                ResolvedTestOptions {
                                    command,
                                    execution_strategy: strategy,
                                    search_strategy: if raw.bisect {
                                        Some(SearchStrategy::Binary)
                                    } else {
                                        raw.search
                                    },
                                    dry_run: raw.dry_run,
                                    interactive: raw.interactive,
                                    jobs: if jobs == 0 {
                                        physical_cpus
                                    } else {
                                        jobs
                                    },
                                    verbosity: raw.verbosity,
                                    apply_fixes: raw.apply_fixes,
                                },
                            )
                        },
                    }
                },
            }
        },
    }
}

impl ResolvedTestOptions {
    /// Resolves the options: the command (given, the user's shell for an
    /// interactive run, or an alias from the configuration), the strategy
    /// and job count (one job and the working copy for an interactive run
    /// or the working-copy strategy; a count of 0 means one job per
    /// physical processor), and the search (`--bisect` means binary).
    pub fn resolve(raw: &RawTestOptions, config: &ConfigValues, physical_cpus: usize) -> (r: Result<
        ResolvedTestOptions,
        ConfigError,
    >)
        ensures
            r == resolution(*raw, *config, physical_cpus),
            r is Ok ==> r->Ok_0.jobs > 0,
            r is Ok ==> r->Ok_0.interactive == raw.interactive,
            r is Ok && (r->Ok_0.interactive || r->Ok_0.execution_strategy
                == ExecutionStrategy::WorkingCopy) ==> r->Ok_0.jobs == 1,
            raw.interactive && raw.jobs is Some && raw.jobs->0 > 1 ==> r is Err,
            raw.jobs == Some(0usize) && !raw.interactive && physical_cpus > 0 && r is Ok
                ==> r->Ok_0.jobs == physical_cpus,
    {
        let command = match (&raw.exec_command, &raw.command) {
            (Some(c), None) => c.clone(),
            (Some(_), Some(_)) => {
                return Err(ConfigError::ConflictingCommand);
            },
            (None, alias) => {
                if raw.interactive && alias.is_none() && config.shell.is_some() {
                    match &config.shell {
                        Some(shell) => shell.clone(),
                        None => {
                            return Err(ConfigError::NoDefaultCommand);
                        },
                    }
                } else {
                    let configured = match &config.alias_command {
                        Some(c) => Some(c.clone()),
                        None => None,
                    };
                    let alias_ref = match alias {
                        Some(a) => Some(a),
                        None => None,
                    };
                    match resolve_test_command_alias(alias_ref, configured) {
                        Ok(c) => c,
                        Err(e) => {
                            return Err(e);
                        },
                    }
                }
            },
        };
        let configured = match raw.strategy {
            Some(_) => ExecutionStrategy::WorkingCopy,
            None => match &config.strategy {
                None => ExecutionStrategy::WorkingCopy,
                Some(s) => match parse_execution_strategy(s.as_str()) {
                    Some(st) => st,
                    None => {
                        return Err(ConfigError::InvalidStrategyConfig(s.clone()));
                    },
                },
            },
        };
        let configured_jobs: Option<usize> = match config.jobs {
            Some(j) => {
                if j < 0 {
                    return Err(ConfigError::InvalidJobsConfig(j));
                }
                Some(j as usize)
            },
            None => None,
        };
        let (jobs, strategy) = if raw.interactive {
            match raw.jobs {
                Some(j) => {
                    if j != 1 {
                        return Err(ConfigError::JobsWithInteractive);
                    }
                },
                None => {},
            }
            if raw.strategy == Some(ExecutionStrategy::Worktree) {
                return Err(ConfigError::InteractiveWithWorktree);
            }
            (1usize, ExecutionStrategy::WorkingCopy)
        } else {
            match raw.jobs {
                None => {
                    let strategy = match raw.strategy {
                        Some(s) => s,
                        None => configured,
                    };
                    if strategy == ExecutionStrategy::WorkingCopy {
                        (1usize, strategy)
                    } else {
                        (
                            match configured_jobs {
                                Some(j) => j,
                                None => 1usize,
                            },
                            strategy,
                        )
                    }
                },
                Some(j) => {
                    if j == 1 {
                        (
                            1usize,
                            match raw.strategy {
                                Some(s) => s,
                                None => configured,
                            },
                        )
                    } else if raw.strategy == Some(ExecutionStrategy::WorkingCopy) {
                        return Err(ConfigError::JobsWithWorkingCopy);
                    } else {
                        (j, ExecutionStrategy::Worktree)
                    }
                },
            }
        };
        if jobs == 0 && physical_cpus == 0 {
            return Err(ConfigError::NoCpus);
        }
        if raw.apply_fixes && raw.force_on_disk {
            return Err(ConfigError::OnDiskFixes);
        }
        let search_strategy = if raw.bisect {
            Some(SearchStrategy::Binary)
        } else {
            raw.search
        };
        Ok(ResolvedTestOptions {
            command,
            execution_strategy: strategy,
            search_strategy,
            dry_run: raw.dry_run,
            interactive: raw.interactive,
            jobs: if jobs == 0 {
                physical_cpus
            } else {
                jobs
            },
            verbosity: raw.verbosity,
            apply_fixes: raw.apply_fixes,
        })
    }

    /// Resolves the options on this machine, counting its physical
    /// processors for `--jobs 0`. The count that came back is returned
    /// with the options; they are `resolution` of it.
    pub fn resolve_here(raw: &RawTestOptions, config: &ConfigValues) -> (r: (
        Result<ResolvedTestOptions, ConfigError>,
        usize,
    ))
        ensures
            r.0 == resolution(*raw, *config, r.1),
            r.0 is Ok ==> r.0->Ok_0.jobs > 0,
    {
        let cpus = physical_cpu_count();
        (ResolvedTestOptions::resolve(raw, config, cpus), cpus)
    }
}

/// Relies on `num_cpus::get_physical`: the number of physical cores of
/// this machine. Nothing is promised of the value; it may differ between
/// machines and between calls.
#[verifier::external_body]
fn physical_cpu_count() -> (r: usize) {
    num_cpus::get_physical()
}

} // verus!

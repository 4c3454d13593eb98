//! Setting the system up for a user: directories, configuration, prompts and keys.

use vstd::prelude::*;
use crate::cli::error::CliError;
use crate::cli::provider_keys::{nonblank, ProviderCredentialTarget};
use crate::config::{AgentTomlConfig, NeuromancerConfig};
use crate::text::{blank, cat3, is_blank, opt_view, views};
use crate::xdg::{
    parent_of, parent_path, path_join, paths_match, resolve_path, resolved, same_path, XdgLayout,
};

verus! {

/// What was done.
#[derive(Debug)]
pub struct InstallResult {
    pub created: Vec<String>,
    pub existing: Vec<String>,
    pub overwritten: Vec<String>,
    pub warnings: Vec<String>,
}

/// What was done, as text.
#[verifier::ext_equal]
pub struct LogView {
    pub created: Seq<Seq<char>>,
    pub existing: Seq<Seq<char>>,
    pub overwritten: Seq<Seq<char>>,
    pub warnings: Seq<Seq<char>>,
}

impl View for InstallResult {
    type V = LogView;

    open spec fn view(&self) -> LogView {
        LogView {
            created: views(self.created@),
            existing: views(self.existing@),
            overwritten: views(self.overwritten@),
            warnings: views(self.warnings@),
        }
    }
}

/// What is done with a file.
#[derive(Debug, Clone, Copy, PartialEq, Eq, Structural)]
pub enum FileStep {
    /// It stays as it is.
    Keep,
    /// It is written.
    Write,
}

/// What is done with a directory and a file in it.
#[derive(Debug)]
pub struct FilePlan {
    /// The directory of the file, which is made if it is not there.
    pub parent: String,
    pub step: FileStep,
}

impl LogView {
    /// A path is noted as made or as there already.
    pub open spec fn noted(self, path: Seq<char>, exists: bool) -> LogView {
        if exists {
            LogView { existing: self.existing.push(path), ..self }
        } else {
            LogView { created: self.created.push(path), ..self }
        }
    }

    /// A directory is noted if it is made.
    pub open spec fn made(self, path: Seq<char>, exists: bool) -> LogView {
        if exists {
            self
        } else {
            LogView { created: self.created.push(path), ..self }
        }
    }
}

fn put_text(list: &mut Vec<String>, s: &str)
    ensures
        views(final(list)@) == views(old(list)@).push(s@),
{
    let ghost before = views(list@);
    list.push(s.to_owned());
    assert(views(list@) =~= before.push(s@));
}

impl InstallResult {
    pub fn new() -> (r: InstallResult)
        ensures
            r@ == (LogView {
                created: Seq::empty(),
                existing: Seq::empty(),
                overwritten: Seq::empty(),
                warnings: Seq::empty(),
            }),
    {
        let r = InstallResult {
            created: Vec::new(),
            existing: Vec::new(),
            overwritten: Vec::new(),
            warnings: Vec::new(),
        };
        assert(r@ =~= LogView {
            created: Seq::empty(),
            existing: Seq::empty(),
            overwritten: Seq::empty(),
            warnings: Seq::empty(),
        });
        r
    }

    /// Notes a directory. It is to be made if it is not there.
    pub fn ensure_dir(&mut self, path: &str, exists: bool)
        ensures
            final(self)@ == old(self)@.noted(path@, exists),
    {
        if exists {
            put_text(&mut self.existing, path);
        } else {
            put_text(&mut self.created, path);
        }
        assert(self@ =~= old(self)@.noted(path@, exists));
    }

    /// Notes a file that is copied from the defaults, with its directory. A file that is there
    /// stays as it is.
    pub fn ensure_file_from_source(&mut self, path: &str, parent_exists: bool, exists: bool) -> (r:
        Result<FilePlan, CliError>)
        ensures
            match (parent_of(path@), r) {
                (None, Err(CliError::Lifecycle(s))) => final(self)@ == old(self)@ && s@
                    == "invalid destination path '"@ + path@ + "'"@,
                (Some(parent), Ok(plan)) => plan.parent@ == parent && plan.step == (if exists {
                    FileStep::Keep
                } else {
                    FileStep::Write
                }) && final(self)@ == old(self)@.noted(parent, parent_exists).noted(path@, exists),
                _ => false,
            },
    {
        match parent_path(path) {
            None => Err(
                CliError::Lifecycle(cat3("invalid destination path '", path, "'")),
            ),
            Some(parent) => {
                self.ensure_dir(parent.as_str(), parent_exists);
                self.ensure_dir(path, exists);
                let step = if exists {
                    FileStep::Keep
                } else {
                    FileStep::Write
                };
                Ok(FilePlan { parent, step })
            },
        }
    }

    /// Notes a file that is copied from the defaults whether it is there or not.
    pub fn overwrite_file_from_source(
        &mut self,
        path: &str,
        parent_exists: bool,
        existed: bool,
    ) -> (r: Result<FilePlan, CliError>)
        ensures
            match (parent_of(path@), r) {
                (None, Err(CliError::Lifecycle(s))) => final(self)@ == old(self)@ && s@
                    == "invalid destination path '"@ + path@ + "'"@,
                (Some(parent), Ok(plan)) => plan.parent@ == parent && plan.step == FileStep::Write
                    && final(self)@ == ({
                    let log = old(self)@.made(parent, parent_exists);
                    if existed {
                        LogView { overwritten: log.overwritten.push(path@), ..log }
                    } else {
                        LogView { created: log.created.push(path@), ..log }
                    }
                }),
                _ => false,
            },
    {
        match parent_path(path) {
            None => Err(
                CliError::Lifecycle(cat3("invalid destination path '", path, "'")),
            ),
            Some(parent) => {
                if !parent_exists {
                    put_text(&mut self.created, parent.as_str());
                }
                let ghost log = old(self)@.made(parent@, parent_exists);
                assert(self@ =~= log);
                if existed {
                    put_text(&mut self.overwritten, path);
                    assert(self@ =~= LogView { overwritten: log.overwritten.push(path@), ..log });
                } else {
                    put_text(&mut self.created, path);
                    assert(self@ =~= LogView { created: log.created.push(path@), ..log });
                }
                Ok(FilePlan { parent, step: FileStep::Write })
            },
        }
    }

    /// Notes a prompt, with its directory if that is made. A prompt that is there stays as it is.
    pub fn ensure_prompt_file(&mut self, path: &str, parent_exists: bool, exists: bool) -> (r:
        Result<FilePlan, CliError>)
        ensures
            match (parent_of(path@), r) {
                (None, Err(CliError::Lifecycle(s))) => final(self)@ == old(self)@ && s@
                    == "invalid prompt path '"@ + path@ + "'"@,
                (Some(parent), Ok(plan)) => plan.parent@ == parent && plan.step == (if exists {
                    FileStep::Keep
                } else {
                    FileStep::Write
                }) && final(self)@ == old(self)@.made(parent, parent_exists).noted(path@, exists),
                _ => false,
            },
    {
        match parent_path(path) {
            None => Err(CliError::Lifecycle(cat3("invalid prompt path '", path, "'"))),
            Some(parent) => {
                if !parent_exists {
                    put_text(&mut self.created, parent.as_str());
                }
                assert(self@ =~= old(self)@.made(parent@, parent_exists));
                self.ensure_dir(path, exists);
                let step = if exists {
                    FileStep::Keep
                } else {
                    FileStep::Write
                };
                Ok(FilePlan { parent, step })
            },
        }
    }

    fn warn(&mut self, text: &str)
        ensures
            final(self)@ == (LogView {
                warnings: old(self)@.warnings.push(text@),
                ..old(self)@
            }),
    {
        put_text(&mut self.warnings, text);
        assert(self@ =~= LogView {
            warnings: old(self)@.warnings.push(text@),
            ..old(self)@
        });
    }

    /// Notes what is warned of before keys are asked for. They are asked for only where one is
    /// needed and someone is there to answer.
    pub fn begin_provider_keys(&mut self, targets: usize, interactive: bool) -> (asks: bool)
        ensures
            asks == (targets > 0 && interactive),
            final(self)@ == keys_announced(old(self)@, targets > 0, interactive),
    {
        if targets == 0 {
            return false;
        }
        self.warn(
            "Provider API keys are stored as plaintext files under XDG_RUNTIME_HOME for v0.1-alpha. OS-specific keychain integration MUST be implemented.",
        );
        if !interactive {
            self.warn(
                "Install is running without an interactive terminal; provider key prompts were skipped.",
            );
            return false;
        }
        true
    }

    /// Whether a key must be asked for, given what its file holds. A key that is there is noted.
    pub fn needs_provider_key(
        &mut self,
        target: &ProviderCredentialTarget,
        found: &Option<String>,
    ) -> (asks: bool)
        ensures
            asks == (nonblank(opt_view(*found)) is None),
            final(self)@ == (if asks {
                old(self)@
            } else {
                LogView { existing: old(self)@.existing.push(target.path@), ..old(self)@ }
            }),
    {
        if let Some(text) = found {
            if !is_blank(text.as_str()) {
                put_text(&mut self.existing, target.path.as_str());
                assert(self@ =~= LogView {
                    existing: old(self)@.existing.push(target.path@),
                    ..old(self)@
                });
                return false;
            }
        }
        true
    }

    /// Whether a key is written, given what was answered. Without an answer there is a warning.
    pub fn take_provider_key(&mut self, target: &ProviderCredentialTarget, input: &str) -> (writes:
        bool)
        ensures
            writes == !blank(input@),
            final(self)@ == (if writes {
                LogView { created: old(self)@.created.push(target.path@), ..old(self)@ }
            } else {
                LogView {
                    warnings: old(self)@.warnings.push(no_key_said(*target)),
                    ..old(self)@
                }
            }),
    {
        if is_blank(input) {
            let mut text = cat3(
                "No API key provided for provider '",
                target.provider.as_str(),
                "' (env var ",
            );
            text.append(target.env_var.as_str());
            text.append(").");
            self.warn(text.as_str());
            return false;
        }
        put_text(&mut self.created, target.path.as_str());
        assert(self@ =~= LogView {
            created: old(self)@.created.push(target.path@),
            ..old(self)@
        });
        true
    }
}

/// What is said of a key that was not given.
pub open spec fn no_key_said(target: ProviderCredentialTarget) -> Seq<char> {
    "No API key provided for provider '"@ + target.provider@ + "' (env var "@ + target.env_var@
        + ")."@
}

/// What is noted before keys are asked for.
pub open spec fn keys_announced(log: LogView, needed: bool, interactive: bool) -> LogView {
    let first = log.warnings.push(
        "Provider API keys are stored as plaintext files under XDG_RUNTIME_HOME for v0.1-alpha. OS-specific keychain integration MUST be implemented."@,
    );
    if !needed {
        log
    } else if interactive {
        LogView { warnings: first, ..log }
    } else {
        LogView {
            warnings: first.push(
                "Install is running without an interactive terminal; provider key prompts were skipped."@,
            ),
            ..log
        }
    }
}

/// The directories that are made, in order, after the one of the configuration.
pub fn install_dirs(layout: &XdgLayout) -> (r: Vec<String>)
    ensures
        views(r@) == seq![
            layout.runtime(),
            layout.runtime(),
            path_join(layout.runtime(), "provider_keys"@),
            path_join(layout.config(), "skills"@),
        ],
{
    let r = vec![
        layout.runtime_root(),
        layout.runtime_home_root(),
        layout.provider_keys_dir(),
        layout.skills_dir(),
    ];
    assert(views(r@) =~= seq![
        layout.runtime(),
        layout.runtime(),
        path_join(layout.runtime(), "provider_keys"@),
        path_join(layout.config(), "skills"@),
    ]);
    r
}

/// Whether a configuration file is copied from the defaults by itself: one that is not the usual
/// one.
pub fn needs_own_config(config_path: &str, layout: &XdgLayout) -> (r: bool)
    ensures
        r == !same_path(config_path@, path_join(layout.config(), "neuromancer.toml"@)),
{
    !paths_match(config_path, layout.default_config_path().as_str())
}

/// The directory that paths in a configuration are taken from.
pub open spec fn config_dir_of(config_path: Seq<char>) -> Seq<char> {
    match parent_of(config_path) {
        Some(dir) => dir,
        None => "."@,
    }
}

/// The prompt of the orchestrator, if its path can be made out.
pub open spec fn orchestrator_prompt(
    config: NeuromancerConfig,
    layout: XdgLayout,
    config_path: Seq<char>,
) -> Option<Seq<char>> {
    resolved(
        opt_view(config.orchestrator.system_prompt_path),
        path_join(layout.config(), "orchestrator/SYSTEM.md"@),
        config_dir_of(config_path),
        layout.home(),
    )
}

/// The prompt of an agent, if its path can be made out.
pub open spec fn agent_prompt(
    agent: (String, AgentTomlConfig),
    layout: XdgLayout,
    config_path: Seq<char>,
) -> Option<Seq<char>> {
    resolved(
        opt_view(agent.1.system_prompt_path),
        path_join(layout.config(), "agents/"@ + agent.0@ + "/SYSTEM.md"@),
        config_dir_of(config_path),
        layout.home(),
    )
}

/// A path that cannot be made out.
pub open spec fn is_invalid_path(e: CliError, input: Option<String>) -> bool {
    input matches Some(path) && (e matches CliError::Usage(s) && s@ == "invalid path '"@ + path@
        + "'"@)
}

fn resolve_prompt(
    raw: &Option<String>,
    default_path: String,
    config_path: &str,
    layout: &XdgLayout,
) -> (r: Result<String, CliError>)
    ensures
        match (
            resolved(
                opt_view(*raw),
                default_path@,
                config_dir_of(config_path@),
                layout.home(),
            ),
            r,
        ) {
            (Some(path), Ok(found)) => found@ == path,
            (None, Err(e)) => is_invalid_path(e, *raw),
            _ => false,
        },
{
    let dir = match parent_path(config_path) {
        Some(dir) => dir,
        None => ".".to_owned(),
    };
    let input = match raw {
        Some(s) => Some(s.as_str()),
        None => None,
    };
    match resolve_path(input, default_path, dir.as_str(), layout.home_dir().as_str()) {
        Ok(path) => Ok(path),
        Err(e) => Err(CliError::Usage(e.to_text())),
    }
}

/// The path of the prompt of the orchestrator.
pub fn orchestrator_prompt_path(
    config: &NeuromancerConfig,
    layout: &XdgLayout,
    config_path: &str,
) -> (r: Result<String, CliError>)
    ensures
        match (orchestrator_prompt(*config, *layout, config_path@), r) {
            (Some(path), Ok(found)) => found@ == path,
            (None, Err(e)) => is_invalid_path(e, config.orchestrator.system_prompt_path),
            _ => false,
        },
{
    resolve_prompt(
        &config.orchestrator.system_prompt_path,
        layout.default_orchestrator_system_prompt_path(),
        config_path,
        layout,
    )
}

/// The path of the prompt of the agent at a position.
pub fn agent_prompt_path(
    config: &NeuromancerConfig,
    i: usize,
    layout: &XdgLayout,
    config_path: &str,
) -> (r: Result<String, CliError>)
    requires
        i < config.agents.list().len(),
    ensures
        match (agent_prompt(config.agents.list()[i as int], *layout, config_path@), r) {
            (Some(path), Ok(found)) => found@ == path,
            (None, Err(e)) => is_invalid_path(
                e,
                config.agents.list()[i as int].1.system_prompt_path,
            ),
            _ => false,
        },
{
    let agent = config.agents.at(i);
    resolve_prompt(
        &agent.1.system_prompt_path,
        layout.default_agent_system_prompt_path(agent.0.as_str()),
        config_path,
        layout,
    )
}

/// The configuration file that a command uses: the one that is named, or else the usual one.
pub fn resolve_config_path(config_path: Option<String>, layout: &XdgLayout) -> (r: String)
    ensures
        match config_path {
            Some(path) => r == path,
            None => r@ == path_join(layout.config(), "neuromancer.toml"@),
        },
{
    match config_path {
        Some(path) => path,
        None => layout.default_config_path(),
    }
}

/// Setting up a second time writes no prompt and no default file that is there.
pub proof fn what_is_there_stays(log: LogView, path: Seq<char>)
    ensures
        log.noted(path, true).created == log.created,
        log.noted(path, true).overwritten == log.overwritten,
{
}

/// What was not there is listed as made, what was there as found; nothing else changes in the list.
pub proof fn what_is_made_is_listed(log: LogView, path: Seq<char>)
    ensures
        log.noted(path, false) == (LogView { created: log.created.push(path), ..log }),
        log.noted(path, true) == (LogView { existing: log.existing.push(path), ..log }),
        log.made(path, false) == (LogView { created: log.created.push(path), ..log }),
        log.made(path, true) == log,
{
}

/// One is warned of keys where there are any to keep, and of prompts that are left out where nobody
/// can answer them.
pub proof fn keys_come_with_a_warning(log: LogView)
    ensures
        keys_announced(log, false, true) == log,
        keys_announced(log, false, false) == log,
        keys_announced(log, true, true).warnings.len() == log.warnings.len() + 1,
        keys_announced(log, true, false).warnings.len() == log.warnings.len() + 2,
        keys_announced(log, true, false).warnings.last()
            == "Install is running without an interactive terminal; provider key prompts were skipped."@,
        keys_announced(log, true, true).warnings.drop_last() == log.warnings,
        keys_announced(log, true, false).warnings.drop_last() == keys_announced(
            log,
            true,
            true,
        ).warnings,
        keys_announced(log, true, false).created == log.created,
        keys_announced(log, true, false).existing == log.existing,
{
    assert(keys_announced(log, true, true).warnings.drop_last() =~= log.warnings);
    assert(keys_announced(log, true, false).warnings.drop_last() =~= keys_announced(
        log,
        true,
        true,
    ).warnings);
}

/// A prompt stands where the configuration says, seen from the configuration; where it says nothing,
/// it stands at its own place for the orchestrator and for each agent.
pub proof fn prompts_stand_where_they_are_named(
    config: NeuromancerConfig,
    agent: (String, AgentTomlConfig),
    layout: XdgLayout,
    config_path: Seq<char>,
)
    ensures
        config.orchestrator.system_prompt_path is None ==> orchestrator_prompt(
            config,
            layout,
            config_path,
        ) == Some(path_join(layout.config(), "orchestrator/SYSTEM.md"@)),
        config.orchestrator.system_prompt_path matches Some(p) ==> orchestrator_prompt(
            config,
            layout,
            config_path,
        ) == resolved(
            Some(p@),
            path_join(layout.config(), "orchestrator/SYSTEM.md"@),
            config_dir_of(config_path),
            layout.home(),
        ),
        agent.1.system_prompt_path is None ==> agent_prompt(agent, layout, config_path) == Some(
            path_join(layout.config(), "agents/"@ + agent.0@ + "/SYSTEM.md"@),
        ),
        agent.1.system_prompt_path matches Some(p) ==> agent_prompt(agent, layout, config_path)
            == resolved(
            Some(p@),
            path_join(layout.config(), "agents/"@ + agent.0@ + "/SYSTEM.md"@),
            config_dir_of(config_path),
            layout.home(),
        ),
        parent_of(config_path) matches Some(dir) ==> config_dir_of(config_path) == dir,
        parent_of(config_path) is None ==> config_dir_of(config_path) == "."@,
{
}

/// What is said of a key that was not given, and of a path that cannot be used.
pub proof fn missing_input_is_named(target: ProviderCredentialTarget, e: CliError, path: String)
    ensures
        no_key_said(target) == "No API key provided for provider '"@ + target.provider@
            + "' (env var "@ + target.env_var@ + ")."@,
        is_invalid_path(e, Some(path)) ==> e.said() == "invalid path '"@ + path@ + "'"@ && e is Usage,
        !is_invalid_path(e, None),
{
}

} // verus!

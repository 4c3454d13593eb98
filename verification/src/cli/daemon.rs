//! Starting, stopping and watching the daemon.

use vstd::prelude::*;
use crate::cli::error::CliError;
use crate::cli::provider_keys::{nonblank, read_nonempty, ProviderCredentialTarget};
use crate::config::NeuromancerConfig;
use crate::text::{
    cat, cat3, chars_of, digit_value, integer_text, integer_to_text, opt_view, trim, trimmed,
};
use crate::time::Duration;
use crate::xdg::{path_join, paths_match, same_path, XdgLayout};

verus! {

#[derive(Debug, Clone)]
pub struct DaemonStartOptions {
    pub config: String,
    pub daemon_bin: Option<String>,
    pub pid_file: String,
    pub wait_healthy: bool,
    pub addr: String,
    pub timeout: Duration,
}

#[derive(Debug, Clone)]
pub struct DaemonStopOptions {
    pub pid_file: String,
    pub grace: Duration,
}

#[derive(Debug, Clone)]
pub struct DaemonRestartOptions {
    pub config: String,
    pub daemon_bin: Option<String>,
    pub pid_file: String,
    pub grace: Duration,
    pub wait_healthy: bool,
    pub addr: String,
    pub timeout: Duration,
}

#[derive(Debug)]
pub struct DaemonStartResult {
    pub pid: i32,
    pub pid_file: String,
    pub healthy: Option<bool>,
    pub warnings: Vec<String>,
}

#[derive(Debug, Clone, Copy, PartialEq, Eq, Structural)]
pub struct DaemonStopResult {
    pub pid: i32,
    pub stopped: bool,
    pub forced: bool,
}

#[derive(Debug)]
pub struct DaemonRestartResult {
    pub previous_running: bool,
    pub stop: Option<DaemonStopResult>,
    pub start: DaemonStartResult,
    pub warnings: Vec<String>,
}

#[derive(Debug, Clone)]
pub struct DaemonStatusResult {
    pub running: bool,
    pub pid: Option<i32>,
    pub pid_file: String,
    pub healthy: Option<bool>,
    pub detail: Option<String>,
}

// ---- numbers of processes ----------------------------------------------------------------

/// The number that digits stand for behind those in front, or what is wrong with the first that
/// does not go on with a number of 32 bits. Below zero, digits are taken away.
pub open spec fn digits_read(s: Seq<char>, front: int, below_zero: bool) -> Result<int, Seq<char>>
    decreases s.len(),
{
    if s.len() == 0 {
        Ok(front)
    } else {
        match digit_value(s[0]) {
            None => Err("invalid digit found in string"@),
            Some(d) => if below_zero {
                if front * 10 - d < i32::MIN {
                    Err("number too small to fit in target type"@)
                } else {
                    digits_read(s.drop_first(), front * 10 - d, true)
                }
            } else if front * 10 + d > i32::MAX {
                Err("number too large to fit in target type"@)
            } else {
                digits_read(s.drop_first(), front * 10 + d, false)
            },
        }
    }
}

/// The number of 32 bits that a text stands for, or what is wrong with it: digits, at least one of
/// them, with or without a sign in front.
pub open spec fn integer_read(s: Seq<char>) -> Result<int, Seq<char>> {
    if s.len() == 0 {
        Err("cannot parse integer from empty string"@)
    } else if s.len() > 1 && (s[0] == '+' || s[0] == '-') {
        digits_read(s.drop_first(), 0, s[0] == '-')
    } else {
        digits_read(s, 0, false)
    }
}

/// The number that a text stands for, or what is wrong with it.
fn read_integer(text: &str) -> (r: Result<i32, String>)
    ensures
        match r {
            Ok(n) => integer_read(text@) == Ok::<int, Seq<char>>(n as int),
            Err(e) => integer_read(text@) == Err::<int, Seq<char>>(e@),
        },
{
    let chars = chars_of(text);
    if chars.len() == 0 {
        return Err("cannot parse integer from empty string".to_owned());
    }
    let signed = chars.len() > 1 && (chars[0] == '+' || chars[0] == '-');
    let below_zero = signed && chars[0] == '-';
    let mut i: usize = if signed {
        1
    } else {
        0
    };
    let mut n: i32 = 0;
    assert(text@.skip(1) =~= text@.drop_first());
    assert(text@.skip(0) =~= text@);
    while i < chars.len()
        invariant
            i <= chars@.len(),
            chars@ == text@,
            below_zero ==> n <= 0,
            !below_zero ==> n >= 0,
            integer_read(text@) == digits_read(text@.skip(i as int), n as int, below_zero),
        decreases chars@.len() - i,
    {
        proof {
            assert(text@.skip(i as int)[0] == chars@[i as int]);
            assert(text@.skip(i as int).drop_first() =~= text@.skip(i + 1));
        }
        let u: u32 = chars[i] as u32;
        if u < 48 || u > 57 {
            return Err("invalid digit found in string".to_owned());
        }
        let d: i64 = (u - 48) as i64;
        let next: i64 = if below_zero {
            n as i64 * 10 - d
        } else {
            n as i64 * 10 + d
        };
        if below_zero && next < i32::MIN as i64 {
            return Err("number too small to fit in target type".to_owned());
        }
        if !below_zero && next > i32::MAX as i64 {
            return Err("number too large to fit in target type".to_owned());
        }
        n = next as i32;
        i = i + 1;
    }
    assert(text@.skip(i as int).len() == 0);
    Ok(n)
}

/// What is said of a file that cannot be used as the note of a process.
pub open spec fn pid_file_said(what: Seq<char>, path: Seq<char>, why: Seq<char>) -> Seq<char> {
    what + " '"@ + path + "': "@ + why
}

/// The number of a process that a file notes, given how the file reads.
pub fn read_pid_file(path: &str, content: Result<String, String>) -> (r: Result<i32, CliError>)
    ensures
        match content {
            Err(why) => r matches Err(CliError::Lifecycle(s)) && s@ == pid_file_said(
                "failed to read pid file"@,
                path@,
                why@,
            ),
            Ok(raw) => match (integer_read(trimmed(raw@)), r) {
                (Ok(pid), Ok(n)) => n == pid,
                (Err(why), Err(CliError::Lifecycle(s))) => s@ == pid_file_said(
                    "invalid pid in file"@,
                    path@,
                    why,
                ),
                _ => false,
            },
        },
{
    match content {
        Err(why) => {
            let mut text = cat3("failed to read pid file", " '", path);
            text.append("': ");
            text.append(why.as_str());
            Err(CliError::Lifecycle(text))
        },
        Ok(raw) => match read_integer(trim(raw.as_str()).as_str()) {
            Ok(pid) => Ok(pid),
            Err(why) => {
                let mut text = cat3("invalid pid in file", " '", path);
                text.append("': ");
                text.append(why.as_str());
                Err(CliError::Lifecycle(text))
            },
        },
    }
}

/// What is written into the file that notes a process.
pub fn pid_file_text(pid: i32) -> (r: String)
    ensures
        r@ == integer_text(pid as int) + "\n"@,
{
    cat(integer_to_text(pid as i64).as_str(), "\n")
}

// ---- before the start --------------------------------------------------------------------

/// What there is at the path of a configuration.
#[derive(Debug)]
pub enum ConfigFile {
    /// A directory.
    Directory,
    /// Nothing.
    Missing,
    /// Something that cannot be read, for the reason that is said.
    Unreadable(String),
    /// Something that is no configuration, for the reason that is said.
    Invalid(String),
    /// A configuration.
    Valid,
}

/// The configuration file is the one that is used if no other is named.
pub open spec fn is_default_config(path: Seq<char>, layout: Option<XdgLayout>) -> bool {
    layout matches Some(l) && same_path(path, path_join(l.config(), "neuromancer.toml"@))
}

/// What helps where there is no configuration.
pub open spec fn create_hint(path: Seq<char>, layout: Option<XdgLayout>) -> Seq<char> {
    if is_default_config(path, layout) {
        "Run `neuroctl install` to bootstrap defaults."@
    } else {
        "Run `neuroctl install --config "@ + path + "` to bootstrap defaults for this path."@
    }
}

/// What helps where the configuration is not valid.
pub open spec fn override_hint(path: Seq<char>, layout: Option<XdgLayout>) -> Seq<char> {
    if is_default_config(path, layout) {
        "Run `neuroctl install --override-config` to rewrite defaults."@
    } else {
        "Run `neuroctl install --config "@ + path
            + " --override-config` to rewrite defaults for this path."@
    }
}

fn check_default_config(path: &str, layout: &Option<XdgLayout>) -> (r: bool)
    ensures
        r == is_default_config(path@, *layout),
{
    match layout {
        Some(l) => paths_match(path, l.default_config_path().as_str()),
        None => false,
    }
}

pub fn install_create_hint_for(path: &str, layout: &Option<XdgLayout>) -> (r: String)
    ensures
        r@ == create_hint(path@, *layout),
{
    if check_default_config(path, layout) {
        "Run `neuroctl install` to bootstrap defaults.".to_owned()
    } else {
        cat3(
            "Run `neuroctl install --config ",
            path,
            "` to bootstrap defaults for this path.",
        )
    }
}

pub fn install_override_hint_for(path: &str, layout: &Option<XdgLayout>) -> (r: String)
    ensures
        r@ == override_hint(path@, *layout),
{
    if check_default_config(path, layout) {
        "Run `neuroctl install --override-config` to rewrite defaults.".to_owned()
    } else {
        cat3(
            "Run `neuroctl install --config ",
            path,
            " --override-config` to rewrite defaults for this path.",
        )
    }
}

/// Whether the daemon can be started with a configuration, given what there is at its path.
pub fn check_daemon_config(path: &str, found: ConfigFile, layout: &Option<XdgLayout>) -> (r: Result<
    (),
    CliError,
>)
    ensures
        match (found, r) {
            (ConfigFile::Valid, Ok(())) => true,
            (ConfigFile::Directory, Err(CliError::Usage(s))) => s@ == "config path '"@ + path@
                + "' is a directory; expected a TOML file"@,
            (ConfigFile::Missing, Err(CliError::Usage(s))) => s@ == "config file '"@ + path@
                + "' was not found. "@ + create_hint(path@, *layout),
            (ConfigFile::Unreadable(why), Err(CliError::Usage(s))) => s@
                == "failed to read config '"@ + path@ + "': "@ + why@,
            (ConfigFile::Invalid(why), Err(CliError::Usage(s))) => s@ == "config '"@ + path@
                + "' is invalid: "@ + why@ + ". "@ + override_hint(path@, *layout),
            _ => false,
        },
{
    match found {
        ConfigFile::Valid => Ok(()),
        ConfigFile::Directory => Err(
            CliError::Usage(
                cat3("config path '", path, "' is a directory; expected a TOML file"),
            ),
        ),
        ConfigFile::Missing => {
            let mut text = cat3("config file '", path, "' was not found. ");
            text.append(install_create_hint_for(path, layout).as_str());
            Err(CliError::Usage(text))
        },
        ConfigFile::Unreadable(why) => {
            let mut text = cat3("failed to read config '", path, "': ");
            text.append(why.as_str());
            Err(CliError::Usage(text))
        },
        ConfigFile::Invalid(why) => {
            let mut text = cat3("config '", path, "' is invalid: ");
            text.append(why.as_str());
            text.append(". ");
            text.append(install_override_hint_for(path, layout).as_str());
            Err(CliError::Usage(text))
        },
    }
}

/// What is said of a key that is missing.
pub open spec fn missing_key_said(target: ProviderCredentialTarget) -> Seq<char> {
    "config uses provider '"@ + target.provider@ + "' but no credential was found. Expected '"@
        + target.env_var@ + "' env var or key file '"@ + target.path@
        + "'. Run `neuroctl install` to capture provider keys."@
}

/// The key for a provider: the one in the environment, or else the one in the file. A file that
/// is not there reads as nothing.
pub fn resolve_provider_key(
    target: &ProviderCredentialTarget,
    env: Option<String>,
    file: Result<Option<String>, String>,
) -> (r: Result<(String, String), CliError>)
    ensures
        match (nonblank(opt_view(env)), file) {
            (Some(value), _) => r matches Ok(pair) && pair.0 == target.env_var && pair.1@ == value,
            (None, Err(why)) => r matches Err(CliError::Lifecycle(s)) && s@
                == "failed reading provider key file '"@ + target.path@ + "': "@ + why@,
            (None, Ok(content)) => match nonblank(opt_view(content)) {
                Some(value) => r matches Ok(pair) && pair.0 == target.env_var && pair.1@ == value,
                None => r matches Err(CliError::Usage(s)) && s@ == missing_key_said(*target),
            },
        },
{
    if let Some(value) = read_nonempty(env) {
        return Ok((target.env_var.clone(), value));
    }
    match file {
        Err(why) => {
            let mut text = cat3(
                "failed reading provider key file '",
                target.path.as_str(),
                "': ",
            );
            text.append(why.as_str());
            Err(CliError::Lifecycle(text))
        },
        Ok(content) => match read_nonempty(content) {
            Some(value) => Ok((target.env_var.clone(), value)),
            None => {
                let mut text = cat3(
                    "config uses provider '",
                    target.provider.as_str(),
                    "' but no credential was found. Expected '",
                );
                text.append(target.env_var.as_str());
                text.append("' env var or key file '");
                text.append(target.path.as_str());
                text.append("'. Run `neuroctl install` to capture provider keys.");
                Err(CliError::Usage(text))
            },
        },
    }
}

/// What a start warns of.
pub fn start_warnings(config: &NeuromancerConfig) -> (r: Vec<String>)
    ensures
        config.agents.list().len() > 0 ==> r@.len() == 0,
        config.agents.list().len() == 0 ==> r@.len() == 1 && r@[0]@
            == "no agents are configured; System0 can answer turns but cannot delegate until agents are added."@,
{
    let mut r: Vec<String> = Vec::new();
    if config.agents.len() == 0 {
        r.push(
            "no agents are configured; System0 can answer turns but cannot delegate until agents are added.".to_owned(),
        );
    }
    r
}

/// Whether a daemon can be started, given the process that is noted, if one is, and whether it
/// lives. The note of a process that is gone is to be removed.
pub fn check_not_running(noted: Option<i32>, alive: bool) -> (r: Result<bool, CliError>)
    ensures
        match (noted, r) {
            (Some(pid), Err(CliError::Lifecycle(s))) => alive && s@
                == "daemon appears to already be running with pid "@ + integer_text(pid as int),
            (Some(_), Ok(remove_note)) => !alive && remove_note,
            (None, Ok(remove_note)) => !remove_note,
            _ => false,
        },
{
    match noted {
        Some(pid) => if alive {
            Err(
                CliError::Lifecycle(
                    cat(
                        "daemon appears to already be running with pid ",
                        integer_to_text(pid as i64).as_str(),
                    ),
                ),
            )
        } else {
            Ok(true)
        },
        None => Ok(false),
    }
}

/// The program of the daemon: the one that is named, or the one that the environment names, or the
/// first that is found, or the one of a development build.
pub fn resolve_daemon_bin(
    explicit: Option<String>,
    from_env: Option<String>,
    in_path: Option<String>,
    fallback_exists: bool,
) -> (r: Result<String, CliError>)
    ensures
        match (explicit, from_env, in_path) {
            (Some(path), _, _) => r == Ok::<String, CliError>(path),
            (None, Some(path), _) => r == Ok::<String, CliError>(path),
            (None, None, Some(path)) => r == Ok::<String, CliError>(path),
            (None, None, None) => if fallback_exists {
                r matches Ok(path) && path@ == "target/debug/neuromancerd"@
            } else {
                r matches Err(CliError::Lifecycle(s)) && s@
                    == "unable to resolve neuromancerd binary (use --daemon-bin or NEUROMANCERD_BIN)"@
            },
        },
{
    if let Some(path) = explicit {
        return Ok(path);
    }
    if let Some(path) = from_env {
        return Ok(path);
    }
    if let Some(path) = in_path {
        return Ok(path);
    }
    if fallback_exists {
        return Ok("target/debug/neuromancerd".to_owned());
    }
    Err(
        CliError::Lifecycle(
            "unable to resolve neuromancerd binary (use --daemon-bin or NEUROMANCERD_BIN)".to_owned(),
        ),
    )
}

/// The number of a new process, if it can be noted.
pub fn check_pid(id: u32) -> (r: Result<i32, CliError>)
    ensures
        match r {
            Ok(pid) => pid == id,
            Err(e) => id > i32::MAX && (e matches CliError::Lifecycle(s) && s@
                == "daemon pid did not fit in i32"@),
        },
{
    if id <= i32::MAX as u32 {
        Ok(id as i32)
    } else {
        Err(CliError::Lifecycle("daemon pid did not fit in i32".to_owned()))
    }
}

// ---- after the start ---------------------------------------------------------------------

/// The shorter of a length of time and five seconds.
pub open spec fn at_most_five_seconds(d: Duration) -> Duration {
    if d.secs < 5 {
        d
    } else {
        Duration { secs: 5, nanos: 0 }
    }
}

/// How long is waited for a sign of life of a new daemon.
pub fn readiness_timeout(wait_healthy: bool, timeout: Duration) -> (r: Duration)
    ensures
        r == (if wait_healthy {
            timeout
        } else {
            at_most_five_seconds(timeout)
        }),
{
    if wait_healthy {
        timeout
    } else {
        status_timeout(timeout)
    }
}

/// How long is waited for a sign of life of a daemon that is to be started again.
pub fn status_timeout(timeout: Duration) -> (r: Duration)
    ensures
        r == at_most_five_seconds(timeout),
{
    if timeout.secs < 5 {
        timeout
    } else {
        Duration::from_secs(5)
    }
}

/// A length of time for those who read, such as `15s`.
pub uninterp spec fn human_text(d: Duration) -> Seq<char>;

/// `humantime::format_duration`: its result depends on the length alone.
#[verifier::external_body]
fn show_duration(d: Duration) -> (r: String)
    requires
        d.nanos < 1_000_000_000,
    ensures
        r@ == human_text(d),
{
    humantime::format_duration(std::time::Duration::new(d.secs, d.nanos)).to_string()
}

/// What is done while a new daemon gives no sign of life yet.
#[derive(Debug)]
pub enum StartupStep {
    /// It lives and answers.
    Ready,
    /// It is asked again a little later.
    Wait,
    /// The start failed. The note of the process is removed where that is said.
    Fail { error: CliError, remove_note: bool },
}

/// The start failed, and this is said of it.
pub open spec fn startup_failed(step: StartupStep, said: Seq<char>, removes: bool) -> bool {
    step matches StartupStep::Fail { error, remove_note } && remove_note == removes && (
    error matches CliError::Lifecycle(s) && s@ == said)
}

/// What is done after a look at a new daemon within the time that it is given: whether it lives,
/// and whether it answered.
pub fn startup_step(pid: i32, alive: bool, answered: bool, config_path: &str) -> (r: StartupStep)
    ensures
        if !alive {
            startup_failed(
                r,
                "daemon process exited during startup (pid "@ + integer_text(pid as int)
                    + "). Check config '"@ + config_path@ + "'."@,
                true,
            )
        } else if answered {
            r is Ready
        } else {
            r is Wait
        },
{
    if !alive {
        let mut text = cat3(
            "daemon process exited during startup (pid ",
            integer_to_text(pid as i64).as_str(),
            "). Check config '",
        );
        text.append(config_path);
        text.append("'.");
        return StartupStep::Fail { error: CliError::Lifecycle(text), remove_note: true };
    }
    if answered {
        StartupStep::Ready
    } else {
        StartupStep::Wait
    }
}

/// What is done when the time that a new daemon is given has passed without an answer.
pub fn startup_expired(
    pid: i32,
    alive: bool,
    timeout: Duration,
    addr: &str,
    last_error: Option<String>,
) -> (r: StartupStep)
    requires
        timeout.nanos < 1_000_000_000,
    ensures
        if !alive {
            startup_failed(
                r,
                "daemon process exited during startup (pid "@ + integer_text(pid as int)
                    + ") before health became available."@,
                true,
            )
        } else {
            startup_failed(
                r,
                "daemon started (pid "@ + integer_text(pid as int)
                    + ") but admin RPC did not become healthy within "@ + human_text(timeout)
                    + " at '"@ + addr@ + "'. "@ + (match last_error {
                    Some(s) => s@,
                    None => "no response"@,
                }),
                false,
            )
        },
{
    if !alive {
        let text = cat3(
            "daemon process exited during startup (pid ",
            integer_to_text(pid as i64).as_str(),
            ") before health became available.",
        );
        return StartupStep::Fail { error: CliError::Lifecycle(text), remove_note: true };
    }
    let mut text = cat3(
        "daemon started (pid ",
        integer_to_text(pid as i64).as_str(),
        ") but admin RPC did not become healthy within ",
    );
    text.append(show_duration(timeout).as_str());
    text.append(" at '");
    text.append(addr);
    text.append("'. ");
    match last_error {
        Some(s) => {
            text.append(s.as_str());
        },
        None => {
            text.append("no response");
        },
    }
    StartupStep::Fail { error: CliError::Lifecycle(text), remove_note: false }
}

/// What a start comes to.
pub fn start_result(pid: i32, pid_file: &str, warnings: Vec<String>) -> (r: DaemonStartResult)
    ensures
        r.pid == pid,
        r.pid_file@ == pid_file@,
        r.healthy == Some(true),
        r.warnings == warnings,
{
    DaemonStartResult { pid, pid_file: pid_file.to_owned(), healthy: Some(true), warnings }
}

// ---- stopping ----------------------------------------------------------------------------

/// How far stopping a daemon has come.
#[derive(Debug, Clone, Copy, PartialEq, Eq, Structural)]
pub enum StopPhase {
    /// It was asked to end.
    Asked,
    /// It was ended by force.
    Forced,
}

/// What is done next to stop a daemon.
#[derive(Debug, Clone, Copy, PartialEq, Eq, Structural)]
pub enum StopStep {
    /// It is looked at again a little later.
    Wait,
    /// It is ended by force.
    Force,
    /// Stopping is over. The note of the process is removed.
    Over(DaemonStopResult),
}

/// Whether a process can be stopped. A note of one that is gone is to be removed.
pub fn check_stoppable(pid: i32, alive: bool) -> (r: Result<(), CliError>)
    ensures
        match r {
            Ok(()) => alive,
            Err(e) => !alive && (e matches CliError::Lifecycle(s) && s@ == "daemon pid "@
                + integer_text(pid as int) + " is not running; removed stale pid file"@),
        },
{
    if alive {
        return Ok(());
    }
    Err(
        CliError::Lifecycle(
            cat3(
                "daemon pid ",
                integer_to_text(pid as i64).as_str(),
                " is not running; removed stale pid file",
            ),
        ),
    )
}

/// What is done next to stop a daemon.
pub open spec fn stop_decision(pid: i32, phase: StopPhase, alive: bool, expired: bool) -> StopStep {
    match phase {
        StopPhase::Asked => if expired {
            StopStep::Force
        } else if alive {
            StopStep::Wait
        } else {
            StopStep::Over(DaemonStopResult { pid, stopped: true, forced: false })
        },
        StopPhase::Forced => if alive && !expired {
            StopStep::Wait
        } else {
            StopStep::Over(DaemonStopResult { pid, stopped: !alive, forced: true })
        },
    }
}

/// What is done next to stop a daemon: whether it still lives, and whether the time that it was
/// given has passed.
pub fn stop_step(pid: i32, phase: StopPhase, alive: bool, expired: bool) -> (r: StopStep)
    ensures
        r == stop_decision(pid, phase, alive, expired),
{
    match phase {
        StopPhase::Asked => if expired {
            StopStep::Force
        } else if alive {
            StopStep::Wait
        } else {
            StopStep::Over(DaemonStopResult { pid, stopped: true, forced: false })
        },
        StopPhase::Forced => if alive && !expired {
            StopStep::Wait
        } else {
            StopStep::Over(DaemonStopResult { pid, stopped: !alive, forced: true })
        },
    }
}

/// What is said of a signal that could not be sent.
pub fn signal_failed(pid: i32, signal: &str) -> (r: CliError)
    ensures
        r matches CliError::Lifecycle(s) && s@ == "failed to send signal "@ + signal@ + " to pid "@
            + integer_text(pid as int),
{
    let mut text = cat3("failed to send signal ", signal, " to pid ");
    text.append(integer_to_text(pid as i64).as_str());
    CliError::Lifecycle(text)
}

// ---- looking -----------------------------------------------------------------------------

/// What is found of a daemon.
#[derive(Debug)]
pub enum DaemonSight {
    /// No process is noted.
    NoNote,
    /// The note cannot be read, for the reason that is said.
    BadNote(String),
    /// The process that is noted is gone.
    Gone(i32),
    /// The process lives and answers.
    Healthy(i32),
    /// The process lives but does not answer, for the reason that is said.
    Unhealthy(i32, String),
}

/// What is told of a daemon, given what is found of it.
pub fn daemon_status(pid_file: &str, sight: DaemonSight) -> (r: DaemonStatusResult)
    ensures
        r.pid_file@ == pid_file@,
        match sight {
            DaemonSight::NoNote => !r.running && r.pid is None && r.healthy is None && opt_view(
                r.detail,
            ) == Some("pid file not found"@),
            DaemonSight::BadNote(why) => !r.running && r.pid is None && r.healthy is None
                && r.detail == Some(why),
            DaemonSight::Gone(pid) => !r.running && r.pid == Some(pid) && r.healthy is None
                && opt_view(r.detail) == Some("pid not running"@),
            DaemonSight::Healthy(pid) => r.running && r.pid == Some(pid) && r.healthy == Some(true)
                && r.detail is None,
            DaemonSight::Unhealthy(pid, why) => r.running && r.pid == Some(pid) && r.healthy
                == Some(false) && r.detail == Some(why),
        },
{
    let (running, pid, healthy, detail) = match sight {
        DaemonSight::NoNote => (false, None, None, Some("pid file not found".to_owned())),
        DaemonSight::BadNote(why) => (false, None, None, Some(why)),
        DaemonSight::Gone(pid) => (false, Some(pid), None, Some("pid not running".to_owned())),
        DaemonSight::Healthy(pid) => (true, Some(pid), Some(true), None),
        DaemonSight::Unhealthy(pid, why) => (true, Some(pid), Some(false), Some(why)),
    };
    DaemonStatusResult { running, pid, pid_file: pid_file.to_owned(), healthy, detail }
}

/// What starting a daemon again comes to: its warnings come first from the one that was there,
/// then from the new one.
pub fn restart_result(
    previous_running: bool,
    stop: Option<DaemonStopResult>,
    start: DaemonStartResult,
) -> (r: DaemonRestartResult)
    ensures
        r.previous_running == previous_running,
        r.stop == stop,
        r.start.pid == start.pid,
        r.start.pid_file == start.pid_file,
        r.start.healthy == start.healthy,
        r.start.warnings@.len() == 0,
        previous_running ==> r.warnings@ == start.warnings@,
        !previous_running ==> r.warnings@.len() == start.warnings@.len() + 1 && r.warnings@[0]@
            == "daemon was not running; starting a new instance."@ && r.warnings@.drop_first()
            == start.warnings@,
{
    let mut warnings: Vec<String> = Vec::new();
    if !previous_running {
        warnings.push("daemon was not running; starting a new instance.".to_owned());
    }
    let mut started = start;
    let mut more: Vec<String> = Vec::new();
    std::mem::swap(&mut more, &mut started.warnings);
    warnings.append(&mut more);
    proof {
        if previous_running {
            assert(warnings@ =~= start.warnings@);
        } else {
            assert(warnings@.drop_first() =~= start.warnings@);
        }
    }
    DaemonRestartResult { previous_running, stop, start: started, warnings }
}

/// Force is used only once the time is up that a daemon has to end. What is told in the end is
/// true: whether the daemon is gone, and whether force was used.
pub proof fn force_only_after_grace(pid: i32, phase: StopPhase, alive: bool, expired: bool)
    ensures
        stop_decision(pid, phase, alive, expired) is Force ==> phase is Asked && expired,
        stop_decision(pid, phase, alive, expired) matches StopStep::Over(result) ==> {
            &&& result.stopped == !alive
            &&& result.forced == (phase is Forced)
        },
{
}

proof fn lemma_digits_read_push(s: Seq<char>, c: char, front: int, below_zero: bool)
    ensures
        digits_read(s.push(c), front, below_zero) == (match digits_read(s, front, below_zero) {
            Ok(n) => digits_read(seq![c], n, below_zero),
            Err(e) => Err(e),
        }),
    decreases s.len(),
{
    if s.len() > 0 {
        assert(s.push(c).drop_first() =~= s.drop_first().push(c));
        match digit_value(s[0]) {
            Some(d) => {
                lemma_digits_read_push(
                    s.drop_first(),
                    c,
                    if below_zero {
                        front * 10 - d
                    } else {
                        front * 10 + d
                    },
                    below_zero,
                );
            },
            None => {},
        }
    } else {
        assert(s.push(c) =~= seq![c]);
    }
}

proof fn lemma_one_digit(d: nat, front: int, below_zero: bool)
    requires
        d < 10,
    ensures
        below_zero && front * 10 - d >= i32::MIN ==> digits_read(
            seq![crate::text::digit(d)],
            front,
            true,
        ) == Ok::<int, Seq<char>>(front * 10 - d),
        !below_zero && front * 10 + d <= i32::MAX ==> digits_read(
            seq![crate::text::digit(d)],
            front,
            false,
        ) == Ok::<int, Seq<char>>(front * 10 + d),
{
    let one = seq![crate::text::digit(d)];
    assert(one.drop_first() =~= Seq::empty());
    assert(digit_value(one[0]) == Some(d));
    reveal_with_fuel(digits_read, 2);
}

proof fn lemma_decimal_is_read(n: nat, below_zero: bool)
    requires
        below_zero ==> -n >= i32::MIN,
        !below_zero ==> n <= i32::MAX,
    ensures
        digits_read(crate::text::decimal(n), 0, below_zero) == Ok::<int, Seq<char>>(
            if below_zero {
                -n
            } else {
                n as int
            },
        ),
    decreases n,
{
    let text = crate::text::decimal(n);
    if n < 10 {
        lemma_one_digit(n, 0, below_zero);
    } else {
        lemma_decimal_is_read(n / 10, below_zero);
        lemma_digits_read_push(
            crate::text::decimal(n / 10),
            crate::text::digit(n % 10),
            0,
            below_zero,
        );
        lemma_one_digit(
            n % 10,
            if below_zero {
                -((n / 10) as int)
            } else {
                (n / 10) as int
            },
            below_zero,
        );
    }
}

/// The number of a process that was written down is read back from the note.
pub proof fn noted_processes_read_back(pid: i32)
    ensures
        integer_read(integer_text(pid as int)) == Ok::<int, Seq<char>>(pid as int),
        integer_read(trimmed(integer_text(pid as int) + "\n"@)) == Ok::<int, Seq<char>>(pid as int),
{
    let n = pid as int;
    let text = integer_text(n);
    reveal_strlit("-");
    reveal_strlit("\n");
    assert("-"@ =~= seq!['-']);
    assert("\n"@ =~= seq!['\n']);
    let size: nat = if n < 0 {
        (-n) as nat
    } else {
        n as nat
    };
    crate::text::lemma_decimal_digits(size);
    lemma_decimal_is_read(size, n < 0);
    if n < 0 {
        assert(text.drop_first() =~= crate::text::decimal(size));
        assert(text.len() > 1);
        assert(text[0] == '-');
    } else {
        assert(text[0] as u32 >= 48);
    }
    let line = text + "\n"@;
    let ends = crate::text::trimming_takes_only_the_ends(line);
    assert(text.last() as u32 >= 48) by {
        assert(text.last() == crate::text::decimal(size).last());
    }
    assert(!crate::text::white(text[0]));
    assert(!crate::text::white(text.last()));
    assert(line[0] == text[0]);
    assert(line[text.len() - 1] == text.last());
    assert(crate::text::white(line[text.len() as int]));
    assert(ends.0 == 0);
    assert(ends.1 == text.len());
    assert(line.subrange(0, text.len() as int) =~= text);
}

/// What is no number is not read as one, and it is said why.
pub proof fn other_notes_are_no_processes(s: Seq<char>)
    ensures
        integer_read(Seq::empty()) == Err::<int, Seq<char>>(
            "cannot parse integer from empty string"@,
        ),
        s.len() > 0 && s[0] != '+' && s[0] != '-' && !(48 <= s[0] as u32 <= 57) ==> integer_read(s)
            == Err::<int, Seq<char>>("invalid digit found in string"@),
        s.len() == 1 && (s[0] == '+' || s[0] == '-') ==> integer_read(s) == Err::<int, Seq<char>>(
            "invalid digit found in string"@,
        ),
{
}

/// What is advised names the configuration, unless it is the one that is taken by itself.
pub proof fn advice_names_the_configuration(path: Seq<char>, layout: XdgLayout)
    ensures
        same_path(path, path_join(layout.config(), "neuromancer.toml"@)) ==> create_hint(
            path,
            Some(layout),
        ) == "Run `neuroctl install` to bootstrap defaults."@ && override_hint(path, Some(layout))
            == "Run `neuroctl install --override-config` to rewrite defaults."@,
        !same_path(path, path_join(layout.config(), "neuromancer.toml"@)) ==> create_hint(
            path,
            Some(layout),
        ) == "Run `neuroctl install --config "@ + path
            + "` to bootstrap defaults for this path."@ && override_hint(path, Some(layout))
            == "Run `neuroctl install --config "@ + path
            + " --override-config` to rewrite defaults for this path."@,
        create_hint(path, None) == "Run `neuroctl install --config "@ + path
            + "` to bootstrap defaults for this path."@,
{
}

/// A missing key is named by its provider, its variable and its file, and a note by its path.
pub proof fn missing_keys_are_named(
    target: ProviderCredentialTarget,
    what: Seq<char>,
    path: Seq<char>,
    why: Seq<char>,
)
    ensures
        missing_key_said(target) == "config uses provider '"@ + target.provider@
            + "' but no credential was found. Expected '"@ + target.env_var@
            + "' env var or key file '"@ + target.path@
            + "'. Run `neuroctl install` to capture provider keys."@,
        pid_file_said(what, path, why) == what + " '"@ + path + "': "@ + why,
{
}

/// A short time is kept, a long one cut to five seconds.
pub proof fn five_seconds_are_enough(d: Duration)
    requires
        d.nanos < 1_000_000_000,
    ensures
        d.secs < 5 ==> at_most_five_seconds(d) == d,
        d.secs >= 5 ==> at_most_five_seconds(d) == (Duration { secs: 5, nanos: 0 }),
        at_most_five_seconds(d).ns() <= 5 * 1_000_000_000,
        at_most_five_seconds(d).ns() <= d.ns(),
{
}

/// How a process is stopped: it is waited for while it lives and there is time, ended by force when
/// the time is over, and waited for again.
pub proof fn processes_are_stopped_in_steps(pid: i32, alive: bool, expired: bool)
    ensures
        stop_decision(pid, StopPhase::Asked, true, false) is Wait,
        stop_decision(pid, StopPhase::Asked, alive, true) is Force,
        stop_decision(pid, StopPhase::Asked, false, false) == StopStep::Over(
            DaemonStopResult { pid, stopped: true, forced: false },
        ),
        stop_decision(pid, StopPhase::Forced, true, false) is Wait,
        stop_decision(pid, StopPhase::Forced, true, true) == StopStep::Over(
            DaemonStopResult { pid, stopped: false, forced: true },
        ),
        stop_decision(pid, StopPhase::Forced, false, expired) == StopStep::Over(
            DaemonStopResult { pid, stopped: true, forced: true },
        ),
{
}

/// A start that failed says why, and whether the note of the process goes.
pub proof fn failed_starts_say_why(step: StartupStep, said: Seq<char>, removes: bool)
    requires
        startup_failed(step, said, removes),
    ensures
        step matches StartupStep::Fail { error, remove_note } && remove_note == removes && error.said()
            == said && error is Lifecycle,
{
}

} // verus!

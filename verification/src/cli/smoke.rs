//! A short trial of the whole system.

use vstd::prelude::*;
use crate::cli::daemon::{DaemonStartOptions, DaemonStopOptions};
use crate::cli::error::CliError;
use crate::json::{parse, value_read, Json};
use crate::text::{blank, cat, cat3, copy_opt, is_blank};
use crate::time::Duration;

verus! {

/// The message of the turn that a trial takes.
pub const SMOKE_MESSAGE: &'static str = "e2e smoke turn";

/// How a trial is run.
#[derive(Debug, Clone)]
pub struct SmokeOptions {
    pub config: String,
    pub daemon_bin: Option<String>,
    pub pid_file: String,
    pub addr: String,
    pub timeout: Duration,
}

impl SmokeOptions {
    /// How the daemon is started for a trial, which waits until the daemon answers.
    pub fn start_options(&self) -> (r: DaemonStartOptions)
        ensures
            r.config@ == self.config@,
            crate::text::opt_view(r.daemon_bin) == crate::text::opt_view(self.daemon_bin),
            r.pid_file@ == self.pid_file@,
            r.wait_healthy,
            r.addr@ == self.addr@,
            r.timeout == self.timeout,
    {
        DaemonStartOptions {
            config: self.config.clone(),
            daemon_bin: copy_opt(&self.daemon_bin),
            pid_file: self.pid_file.clone(),
            wait_healthy: true,
            addr: self.addr.clone(),
            timeout: self.timeout,
        }
    }

    /// How the daemon is stopped after a trial: it has fifteen seconds.
    pub fn stop_options(&self) -> (r: DaemonStopOptions)
        ensures
            r.pid_file@ == self.pid_file@,
            r.grace == Duration::from_secs(15),
    {
        DaemonStopOptions { pid_file: self.pid_file.clone(), grace: Duration::from_secs(15) }
    }
}

/// What a trial brought.
#[derive(Debug)]
pub struct SmokeResult {
    pub turn_id: String,
    pub response: String,
}

/// What the turn of a trial comes to. It must have a name and an answer.
pub fn smoke_turn(turn_id: String, response: String) -> (r: Result<SmokeResult, CliError>)
    ensures
        match r {
            Ok(result) => !blank(turn_id@) && !blank(response@) && result.turn_id == turn_id
                && result.response == response,
            Err(CliError::Smoke(s)) => if blank(turn_id@) {
                s@ == "orchestrator.turn returned an empty turn_id"@
            } else {
                blank(response@) && s@ == "orchestrator.turn returned an empty response"@
            },
            Err(_) => false,
        },
{
    if is_blank(turn_id.as_str()) {
        return Err(CliError::Smoke("orchestrator.turn returned an empty turn_id".to_owned()));
    }
    if is_blank(response.as_str()) {
        return Err(CliError::Smoke("orchestrator.turn returned an empty response".to_owned()));
    }
    Ok(SmokeResult { turn_id, response })
}

/// What a trial comes to, given how its turn went and how the daemon was stopped after it.
pub fn smoke_outcome(turn: Result<SmokeResult, CliError>, stop: Result<(), CliError>) -> (r: Result<
    SmokeResult,
    CliError,
>)
    ensures
        match (turn, stop) {
            (Ok(result), Ok(())) => r == Ok::<SmokeResult, CliError>(result),
            (Err(e), Ok(())) => r == Err::<SmokeResult, CliError>(e),
            (Ok(_), Err(e)) => r == Err::<SmokeResult, CliError>(e),
            (Err(e), Err(f)) => r matches Err(CliError::Smoke(s)) && s@ == "smoke failed: "@
                + e.said() + "; daemon stop also failed: "@ + f.said(),
        },
{
    match (turn, stop) {
        (Ok(result), Ok(())) => Ok(result),
        (Err(e), Ok(())) => Err(e),
        (Ok(_), Err(e)) => Err(e),
        (Err(e), Err(f)) => {
            let mut text = cat3(
                "smoke failed: ",
                e.to_text().as_str(),
                "; daemon stop also failed: ",
            );
            text.append(f.to_text().as_str());
            Err(CliError::Smoke(text))
        },
    }
}

/// The parameters of a call, read from what was given.
pub fn parse_json_params(params: Option<String>) -> (r: Result<Option<Json>, CliError>)
    ensures
        match params {
            None => r matches Ok(None),
            Some(raw) => match (value_read(raw@), r) {
                (Ok(value), Ok(Some(j))) => j@ == value,
                (Err(why), Err(CliError::Usage(s))) => s@ == "invalid --params JSON: "@ + why,
                _ => false,
            },
        },
{
    match params {
        None => Ok(None),
        Some(raw) => match parse(raw.as_str()) {
            Ok(value) => Ok(Some(value)),
            Err(why) => Err(CliError::Usage(cat("invalid --params JSON: ", why.as_str()))),
        },
    }
}

} // verus!

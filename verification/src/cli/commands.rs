//! The commands of `neuroctl` and what they are given.

use vstd::prelude::*;
use crate::cli::grammar::{
    arguments_say, arguments_verdict, bare_grammar, count_of, duration_read, flags_are_taken,
    group_says, group_verdict, is_count, is_dashed, is_path, is_span, is_truth, no_level, opt_nat,
    options_are_taken_with_their_values, or_default, parse_arguments, parse_group, read_count,
    read_path, read_span, read_truth, scan, span_of, truth_of, value_in, words_are_taken, Arguments,
    Commands, Grammar, GrammarView, Level, LevelView, Scan, UsageError, Verdict,
};
use crate::text::{opt_view, same, views};
use crate::time::Duration;

verus! {

/// Where the process of the daemon is noted if nothing else is said.
pub const DEFAULT_PID_FILE: &'static str = "/tmp/neuromancer.pid";

/// What `install` is given.
#[derive(Debug)]
pub struct InstallArgs {
    pub config: Option<String>,
    pub override_config: bool,
}

impl Arguments for InstallArgs {
    /// The options of `install`.
    open spec fn grammar() -> GrammarView {
        GrammarView {
            options: seq!["config"@],
            flags: seq!["override-config"@],
            paths: seq!["config"@],
            ..bare_grammar()
        }
    }

    fn grammar_of() -> (r: Grammar) {
        let mut r = Grammar::bare();
        r.options = vec!["config".to_owned()];
        r.flags = vec!["override-config".to_owned()];
        r.paths = vec!["config".to_owned()];
        assert(r@ =~= Self::grammar());
        r
    }

    /// The arguments can be read.
    open spec fn accepts(level: LevelView) -> bool {
        &&& level.words.len() == 0
        &&& is_path(level.value("config"@))
    }

    /// This is what the arguments say.
    open spec fn reads(self, level: LevelView) -> bool {
        &&& opt_view(self.config) == level.value("config"@)
        &&& self.override_config == level.flags.contains("override-config"@)
    }

    fn read(level: &Level) -> (r: Option<InstallArgs>) {
        if level.words.len() != 0 {
            return None;
        }
        let config = match read_path(level.get("config")) {
            Some(value) => value,
            None => {
                return None;
            },
        };
        let override_config = level.has("override-config");
        Some(InstallArgs { config, override_config })
    }
}

/// What `daemon start` is given.
#[derive(Debug)]
pub struct DaemonStartArgs {
    pub config: Option<String>,
    pub daemon_bin: Option<String>,
    pub pid_file: String,
    pub wait_healthy: bool,
}

impl Arguments for DaemonStartArgs {
    /// The options of `daemon start`.
    open spec fn grammar() -> GrammarView {
        GrammarView {
            options: seq!["config"@, "daemon-bin"@, "pid-file"@],
            flags: seq!["wait-healthy"@],
            paths: seq!["config"@, "daemon-bin"@, "pid-file"@],
            ..bare_grammar()
        }
    }

    fn grammar_of() -> (r: Grammar) {
        let mut r = Grammar::bare();
        r.options = vec!["config".to_owned(), "daemon-bin".to_owned(), "pid-file".to_owned()];
        r.flags = vec!["wait-healthy".to_owned()];
        r.paths = vec!["config".to_owned(), "daemon-bin".to_owned(), "pid-file".to_owned()];
        assert(r@ =~= Self::grammar());
        r
    }

    /// The arguments can be read.
    open spec fn accepts(level: LevelView) -> bool {
        &&& level.words.len() == 0
        &&& is_path(level.value("config"@))
        &&& is_path(level.value("daemon-bin"@))
        &&& is_path(level.value("pid-file"@))
    }

    /// This is what the arguments say.
    open spec fn reads(self, level: LevelView) -> bool {
        &&& opt_view(self.config) == level.value("config"@)
        &&& opt_view(self.daemon_bin) == level.value("daemon-bin"@)
        &&& self.pid_file@ == or_default(level.value("pid-file"@), DEFAULT_PID_FILE@)
        &&& self.wait_healthy == level.flags.contains("wait-healthy"@)
    }

    fn read(level: &Level) -> (r: Option<DaemonStartArgs>) {
        if level.words.len() != 0 {
            return None;
        }
        let config = match read_path(level.get("config")) {
            Some(value) => value,
            None => {
                return None;
            },
        };
        let daemon_bin = match read_path(level.get("daemon-bin")) {
            Some(value) => value,
            None => {
                return None;
            },
        };
        let pid_file = match read_path(level.get("pid-file")) {
            Some(Some(value)) => value,
            Some(None) => DEFAULT_PID_FILE.to_owned(),
            None => {
                return None;
            },
        };
        let wait_healthy = level.has("wait-healthy");
        Some(DaemonStartArgs { config, daemon_bin, pid_file, wait_healthy })
    }
}

/// What `daemon restart` is given.
#[derive(Debug)]
pub struct DaemonRestartArgs {
    pub config: Option<String>,
    pub daemon_bin: Option<String>,
    pub pid_file: String,
    pub grace: Duration,
    pub wait_healthy: bool,
}

impl Arguments for DaemonRestartArgs {
    /// The options of `daemon restart`.
    open spec fn grammar() -> GrammarView {
        GrammarView {
            options: seq!["config"@, "daemon-bin"@, "pid-file"@, "grace"@],
            flags: seq!["wait-healthy"@],
            paths: seq!["config"@, "daemon-bin"@, "pid-file"@],
            spans: seq!["grace"@],
            ..bare_grammar()
        }
    }

    fn grammar_of() -> (r: Grammar) {
        let mut r = Grammar::bare();
        r.options = vec![
            "config".to_owned(),
            "daemon-bin".to_owned(),
            "pid-file".to_owned(),
            "grace".to_owned(),
        ];
        r.flags = vec!["wait-healthy".to_owned()];
        r.paths = vec!["config".to_owned(), "daemon-bin".to_owned(), "pid-file".to_owned()];
        r.spans = vec!["grace".to_owned()];
        assert(r@ =~= Self::grammar());
        r
    }

    /// The arguments can be read.
    open spec fn accepts(level: LevelView) -> bool {
        &&& level.words.len() == 0
        &&& is_path(level.value("config"@))
        &&& is_path(level.value("daemon-bin"@))
        &&& is_path(level.value("pid-file"@))
        &&& is_span(level.value("grace"@))
    }

    /// This is what the arguments say.
    open spec fn reads(self, level: LevelView) -> bool {
        &&& opt_view(self.config) == level.value("config"@)
        &&& opt_view(self.daemon_bin) == level.value("daemon-bin"@)
        &&& self.pid_file@ == or_default(level.value("pid-file"@), DEFAULT_PID_FILE@)
        &&& self.grace == span_of(level.value("grace"@), 15)
        &&& self.wait_healthy == level.flags.contains("wait-healthy"@)
    }

    fn read(level: &Level) -> (r: Option<DaemonRestartArgs>) {
        if level.words.len() != 0 {
            return None;
        }
        let config = match read_path(level.get("config")) {
            Some(value) => value,
            None => {
                return None;
            },
        };
        let daemon_bin = match read_path(level.get("daemon-bin")) {
            Some(value) => value,
            None => {
                return None;
            },
        };
        let pid_file = match read_path(level.get("pid-file")) {
            Some(Some(value)) => value,
            Some(None) => DEFAULT_PID_FILE.to_owned(),
            None => {
                return None;
            },
        };
        let grace = match read_span(level.get("grace"), 15) {
            Some(value) => value,
            None => {
                return None;
            },
        };
        let wait_healthy = level.has("wait-healthy");
        Some(DaemonRestartArgs { config, daemon_bin, pid_file, grace, wait_healthy })
    }
}

/// What `daemon stop` is given.
#[derive(Debug)]
pub struct DaemonStopArgs {
    pub pid_file: String,
    pub grace: Duration,
}

impl Arguments for DaemonStopArgs {
    /// The options of `daemon stop`.
    open spec fn grammar() -> GrammarView {
        GrammarView {
            options: seq!["pid-file"@, "grace"@],
            flags: Seq::empty(),
            paths: seq!["pid-file"@],
            spans: seq!["grace"@],
            ..bare_grammar()
        }
    }

    fn grammar_of() -> (r: Grammar) {
        let mut r = Grammar::bare();
        r.options = vec!["pid-file".to_owned(), "grace".to_owned()];
        r.paths = vec!["pid-file".to_owned()];
        r.spans = vec!["grace".to_owned()];
        assert(r@ =~= Self::grammar());
        r
    }

    /// The arguments can be read.
    open spec fn accepts(level: LevelView) -> bool {
        &&& level.words.len() == 0
        &&& is_path(level.value("pid-file"@))
        &&& is_span(level.value("grace"@))
    }

    /// This is what the arguments say.
    open spec fn reads(self, level: LevelView) -> bool {
        &&& self.pid_file@ == or_default(level.value("pid-file"@), DEFAULT_PID_FILE@)
        &&& self.grace == span_of(level.value("grace"@), 15)
    }

    fn read(level: &Level) -> (r: Option<DaemonStopArgs>) {
        if level.words.len() != 0 {
            return None;
        }
        let pid_file = match read_path(level.get("pid-file")) {
            Some(Some(value)) => value,
            Some(None) => DEFAULT_PID_FILE.to_owned(),
            None => {
                return None;
            },
        };
        let grace = match read_span(level.get("grace"), 15) {
            Some(value) => value,
            None => {
                return None;
            },
        };
        Some(DaemonStopArgs { pid_file, grace })
    }
}

/// What `daemon status` is given.
#[derive(Debug)]
pub struct DaemonStatusArgs {
    pub pid_file: String,
}

impl Arguments for DaemonStatusArgs {
    /// The options of `daemon status`.
    open spec fn grammar() -> GrammarView {
        GrammarView {
            options: seq!["pid-file"@],
            flags: Seq::empty(),
            paths: seq!["pid-file"@],
            ..bare_grammar()
        }
    }

    fn grammar_of() -> (r: Grammar) {
        let mut r = Grammar::bare();
        r.options = vec!["pid-file".to_owned()];
        r.paths = vec!["pid-file".to_owned()];
        assert(r@ =~= Self::grammar());
        r
    }

    /// The arguments can be read.
    open spec fn accepts(level: LevelView) -> bool {
        &&& level.words.len() == 0
        &&& is_path(level.value("pid-file"@))
    }

    /// This is what the arguments say.
    open spec fn reads(self, level: LevelView) -> bool {
        &&& self.pid_file@ == or_default(level.value("pid-file"@), DEFAULT_PID_FILE@)
    }

    fn read(level: &Level) -> (r: Option<DaemonStatusArgs>) {
        if level.words.len() != 0 {
            return None;
        }
        let pid_file = match read_path(level.get("pid-file")) {
            Some(Some(value)) => value,
            Some(None) => DEFAULT_PID_FILE.to_owned(),
            None => {
                return None;
            },
        };
        Some(DaemonStatusArgs { pid_file })
    }
}

/// What `rpc call` is given.
#[derive(Debug)]
pub struct RpcCallArgs {
    pub method: String,
    pub params: Option<String>,
}

impl Arguments for RpcCallArgs {
    /// The options of `rpc call`.
    open spec fn grammar() -> GrammarView {
        GrammarView {
            options: seq!["method"@, "params"@],
            flags: Seq::empty(),
            ..bare_grammar()
        }
    }

    fn grammar_of() -> (r: Grammar) {
        let mut r = Grammar::bare();
        r.options = vec!["method".to_owned(), "params".to_owned()];
        assert(r@ =~= Self::grammar());
        r
    }

    /// The arguments can be read.
    open spec fn accepts(level: LevelView) -> bool {
        &&& level.words.len() == 0
        &&& level.value("method"@) is Some
    }

    /// This is what the arguments say.
    open spec fn reads(self, level: LevelView) -> bool {
        &&& Some(self.method@) == level.value("method"@)
        &&& opt_view(self.params) == level.value("params"@)
    }

    fn read(level: &Level) -> (r: Option<RpcCallArgs>) {
        if level.words.len() != 0 {
            return None;
        }
        let method = match level.get("method") {
            Some(value) => value,
            None => {
                return None;
            },
        };
        let params = level.get("params");
        Some(RpcCallArgs { method, params })
    }
}

/// What `e2e smoke` is given.
#[derive(Debug)]
pub struct E2eSmokeArgs {
    pub config: Option<String>,
    pub daemon_bin: Option<String>,
    pub pid_file: String,
}

impl Arguments for E2eSmokeArgs {
    /// The options of `e2e smoke`.
    open spec fn grammar() -> GrammarView {
        GrammarView {
            options: seq!["config"@, "daemon-bin"@, "pid-file"@],
            flags: Seq::empty(),
            paths: seq!["config"@, "daemon-bin"@, "pid-file"@],
            ..bare_grammar()
        }
    }

    fn grammar_of() -> (r: Grammar) {
        let mut r = Grammar::bare();
        r.options = vec!["config".to_owned(), "daemon-bin".to_owned(), "pid-file".to_owned()];
        r.paths = vec!["config".to_owned(), "daemon-bin".to_owned(), "pid-file".to_owned()];
        assert(r@ =~= Self::grammar());
        r
    }

    /// The arguments can be read.
    open spec fn accepts(level: LevelView) -> bool {
        &&& level.words.len() == 0
        &&& is_path(level.value("config"@))
        &&& is_path(level.value("daemon-bin"@))
        &&& is_path(level.value("pid-file"@))
    }

    /// This is what the arguments say.
    open spec fn reads(self, level: LevelView) -> bool {
        &&& opt_view(self.config) == level.value("config"@)
        &&& opt_view(self.daemon_bin) == level.value("daemon-bin"@)
        &&& self.pid_file@ == or_default(level.value("pid-file"@), DEFAULT_PID_FILE@)
    }

    fn read(level: &Level) -> (r: Option<E2eSmokeArgs>) {
        if level.words.len() != 0 {
            return None;
        }
        let config = match read_path(level.get("config")) {
            Some(value) => value,
            None => {
                return None;
            },
        };
        let daemon_bin = match read_path(level.get("daemon-bin")) {
            Some(value) => value,
            None => {
                return None;
            },
        };
        let pid_file = match read_path(level.get("pid-file")) {
            Some(Some(value)) => value,
            Some(None) => DEFAULT_PID_FILE.to_owned(),
            None => {
                return None;
            },
        };
        Some(E2eSmokeArgs { config, daemon_bin, pid_file })
    }
}

/// What `orchestrator turn` is given.
#[derive(Debug)]
pub struct OrchestratorTurnArgs {
    pub message: String,
}

impl Arguments for OrchestratorTurnArgs {
    /// The options of `orchestrator turn`.
    open spec fn grammar() -> GrammarView {
        GrammarView {
            options: Seq::empty(),
            flags: Seq::empty(),
            words: 1,
            ..bare_grammar()
        }
    }

    fn grammar_of() -> (r: Grammar) {
        let mut r = Grammar::bare();
        r.words = 1;
        assert(r@ =~= Self::grammar());
        r
    }

    /// The arguments can be read.
    open spec fn accepts(level: LevelView) -> bool {
        &&& level.words.len() == 1
    }

    /// This is what the arguments say.
    open spec fn reads(self, level: LevelView) -> bool {
        &&& self.message@ == level.words[0]
    }

    fn read(level: &Level) -> (r: Option<OrchestratorTurnArgs>) {
        if level.words.len() != 1 {
            return None;
        }
        let message = level.words[0].clone();
        Some(OrchestratorTurnArgs { message })
    }
}

/// What `orchestrator chat` is given.
#[derive(Debug)]
pub struct OrchestratorChatArgs {}

impl Arguments for OrchestratorChatArgs {
    /// The options of `orchestrator chat`.
    open spec fn grammar() -> GrammarView {
        GrammarView {
            options: Seq::empty(),
            flags: Seq::empty(),
            ..bare_grammar()
        }
    }

    fn grammar_of() -> (r: Grammar) {
        let r = Grammar::bare();
        assert(r@ =~= Self::grammar());
        r
    }

    /// The arguments can be read.
    open spec fn accepts(level: LevelView) -> bool {
        &&& level.words.len() == 0
    }

    /// This is what the arguments say.
    open spec fn reads(self, level: LevelView) -> bool {
        true
    }

    fn read(level: &Level) -> (r: Option<OrchestratorChatArgs>) {
        if level.words.len() != 0 {
            return None;
        }
        Some(OrchestratorChatArgs {  })
    }
}

/// What `orchestrator runs get` is given.
#[derive(Debug)]
pub struct OrchestratorRunGetArgs {
    pub run_id: String,
}

impl Arguments for OrchestratorRunGetArgs {
    /// The options of `orchestrator runs get`.
    open spec fn grammar() -> GrammarView {
        GrammarView {
            options: Seq::empty(),
            flags: Seq::empty(),
            words: 1,
            ..bare_grammar()
        }
    }

    fn grammar_of() -> (r: Grammar) {
        let mut r = Grammar::bare();
        r.words = 1;
        assert(r@ =~= Self::grammar());
        r
    }

    /// The arguments can be read.
    open spec fn accepts(level: LevelView) -> bool {
        &&& level.words.len() == 1
    }

    /// This is what the arguments say.
    open spec fn reads(self, level: LevelView) -> bool {
        &&& self.run_id@ == level.words[0]
    }

    fn read(level: &Level) -> (r: Option<OrchestratorRunGetArgs>) {
        if level.words.len() != 1 {
            return None;
        }
        let run_id = level.words[0].clone();
        Some(OrchestratorRunGetArgs { run_id })
    }
}

/// What `orchestrator runs diagnose` is given.
#[derive(Debug)]
pub struct OrchestratorRunDiagnoseArgs {
    pub run_id: String,
}

impl Arguments for OrchestratorRunDiagnoseArgs {
    /// The options of `orchestrator runs diagnose`.
    open spec fn grammar() -> GrammarView {
        GrammarView {
            options: Seq::empty(),
            flags: Seq::empty(),
            words: 1,
            ..bare_grammar()
        }
    }

    fn grammar_of() -> (r: Grammar) {
        let mut r = Grammar::bare();
        r.words = 1;
        assert(r@ =~= Self::grammar());
        r
    }

    /// The arguments can be read.
    open spec fn accepts(level: LevelView) -> bool {
        &&& level.words.len() == 1
    }

    /// This is what the arguments say.
    open spec fn reads(self, level: LevelView) -> bool {
        &&& self.run_id@ == level.words[0]
    }

    fn read(level: &Level) -> (r: Option<OrchestratorRunDiagnoseArgs>) {
        if level.words.len() != 1 {
            return None;
        }
        let run_id = level.words[0].clone();
        Some(OrchestratorRunDiagnoseArgs { run_id })
    }
}

/// What `orchestrator events query` is given.
#[derive(Debug)]
pub struct OrchestratorEventsQueryArgs {
    pub thread_id: Option<String>,
    pub run_id: Option<String>,
    pub agent_id: Option<String>,
    pub tool_id: Option<String>,
    pub event_type: Option<String>,
    pub error_contains: Option<String>,
    pub offset: Option<usize>,
    pub limit: Option<usize>,
}

impl Arguments for OrchestratorEventsQueryArgs {
    /// The options of `orchestrator events query`.
    open spec fn grammar() -> GrammarView {
        GrammarView {
            options: seq![
                "thread-id"@,
                "run-id"@,
                "agent-id"@,
                "tool-id"@,
                "event-type"@,
                "error-contains"@,
                "offset"@,
                "limit"@,
            ],
            flags: Seq::empty(),
            counts: seq!["offset"@, "limit"@],
            ..bare_grammar()
        }
    }

    fn grammar_of() -> (r: Grammar) {
        let mut r = Grammar::bare();
        r.options = vec![
            "thread-id".to_owned(),
            "run-id".to_owned(),
            "agent-id".to_owned(),
            "tool-id".to_owned(),
            "event-type".to_owned(),
            "error-contains".to_owned(),
            "offset".to_owned(),
            "limit".to_owned(),
        ];
        r.counts = vec!["offset".to_owned(), "limit".to_owned()];
        assert(r@ =~= Self::grammar());
        r
    }

    /// The arguments can be read.
    open spec fn accepts(level: LevelView) -> bool {
        &&& level.words.len() == 0
        &&& is_count(level.value("offset"@))
        &&& is_count(level.value("limit"@))
    }

    /// This is what the arguments say.
    open spec fn reads(self, level: LevelView) -> bool {
        &&& opt_view(self.thread_id) == level.value("thread-id"@)
        &&& opt_view(self.run_id) == level.value("run-id"@)
        &&& opt_view(self.agent_id) == level.value("agent-id"@)
        &&& opt_view(self.tool_id) == level.value("tool-id"@)
        &&& opt_view(self.event_type) == level.value("event-type"@)
        &&& opt_view(self.error_contains) == level.value("error-contains"@)
        &&& count_of(level.value("offset"@)) == opt_nat(self.offset)
        &&& count_of(level.value("limit"@)) == opt_nat(self.limit)
    }

    fn read(level: &Level) -> (r: Option<OrchestratorEventsQueryArgs>) {
        if level.words.len() != 0 {
            return None;
        }
        let thread_id = level.get("thread-id");
        let run_id = level.get("run-id");
        let agent_id = level.get("agent-id");
        let tool_id = level.get("tool-id");
        let event_type = level.get("event-type");
        let error_contains = level.get("error-contains");
        let offset = match read_count(level.get("offset")) {
            Some(value) => value,
            None => {
                return None;
            },
        };
        let limit = match read_count(level.get("limit")) {
            Some(value) => value,
            None => {
                return None;
            },
        };
        Some(OrchestratorEventsQueryArgs {
            thread_id,
            run_id,
            agent_id,
            tool_id,
            event_type,
            error_contains,
            offset,
            limit,
        })
    }
}

/// What `orchestrator reports query` is given.
#[derive(Debug)]
pub struct OrchestratorReportsQueryArgs {
    pub thread_id: Option<String>,
    pub run_id: Option<String>,
    pub agent_id: Option<String>,
    pub report_type: Option<String>,
    pub include_remediation: Option<bool>,
    pub offset: Option<usize>,
    pub limit: Option<usize>,
}

impl Arguments for OrchestratorReportsQueryArgs {
    /// The options of `orchestrator reports query`.
    open spec fn grammar() -> GrammarView {
        GrammarView {
            options: seq![
                "thread-id"@,
                "run-id"@,
                "agent-id"@,
                "report-type"@,
                "include-remediation"@,
                "offset"@,
                "limit"@,
            ],
            flags: Seq::empty(),
            counts: seq!["offset"@, "limit"@],
            truths: seq!["include-remediation"@],
            ..bare_grammar()
        }
    }

    fn grammar_of() -> (r: Grammar) {
        let mut r = Grammar::bare();
        r.options = vec![
            "thread-id".to_owned(),
            "run-id".to_owned(),
            "agent-id".to_owned(),
            "report-type".to_owned(),
            "include-remediation".to_owned(),
            "offset".to_owned(),
            "limit".to_owned(),
        ];
        r.counts = vec!["offset".to_owned(), "limit".to_owned()];
        r.truths = vec!["include-remediation".to_owned()];
        assert(r@ =~= Self::grammar());
        r
    }

    /// The arguments can be read.
    open spec fn accepts(level: LevelView) -> bool {
        &&& level.words.len() == 0
        &&& is_truth(level.value("include-remediation"@))
        &&& is_count(level.value("offset"@))
        &&& is_count(level.value("limit"@))
    }

    /// This is what the arguments say.
    open spec fn reads(self, level: LevelView) -> bool {
        &&& opt_view(self.thread_id) == level.value("thread-id"@)
        &&& opt_view(self.run_id) == level.value("run-id"@)
        &&& opt_view(self.agent_id) == level.value("agent-id"@)
        &&& opt_view(self.report_type) == level.value("report-type"@)
        &&& self.include_remediation == truth_of(level.value("include-remediation"@))
        &&& count_of(level.value("offset"@)) == opt_nat(self.offset)
        &&& count_of(level.value("limit"@)) == opt_nat(self.limit)
    }

    fn read(level: &Level) -> (r: Option<OrchestratorReportsQueryArgs>) {
        if level.words.len() != 0 {
            return None;
        }
        let thread_id = level.get("thread-id");
        let run_id = level.get("run-id");
        let agent_id = level.get("agent-id");
        let report_type = level.get("report-type");
        let include_remediation = match read_truth(level.get("include-remediation")) {
            Some(value) => value,
            None => {
                return None;
            },
        };
        let offset = match read_count(level.get("offset")) {
            Some(value) => value,
            None => {
                return None;
            },
        };
        let limit = match read_count(level.get("limit")) {
            Some(value) => value,
            None => {
                return None;
            },
        };
        Some(OrchestratorReportsQueryArgs {
            thread_id,
            run_id,
            agent_id,
            report_type,
            include_remediation,
            offset,
            limit,
        })
    }
}

/// What `orchestrator threads get` is given.
#[derive(Debug)]
pub struct OrchestratorThreadGetArgs {
    pub thread_id: String,
    pub offset: Option<usize>,
    pub limit: Option<usize>,
}

impl Arguments for OrchestratorThreadGetArgs {
    /// The options of `orchestrator threads get`.
    open spec fn grammar() -> GrammarView {
        GrammarView {
            options: seq!["offset"@, "limit"@],
            flags: Seq::empty(),
            counts: seq!["offset"@, "limit"@],
            words: 1,
            ..bare_grammar()
        }
    }

    fn grammar_of() -> (r: Grammar) {
        let mut r = Grammar::bare();
        r.options = vec!["offset".to_owned(), "limit".to_owned()];
        r.counts = vec!["offset".to_owned(), "limit".to_owned()];
        r.words = 1;
        assert(r@ =~= Self::grammar());
        r
    }

    /// The arguments can be read.
    open spec fn accepts(level: LevelView) -> bool {
        &&& level.words.len() == 1
        &&& is_count(level.value("offset"@))
        &&& is_count(level.value("limit"@))
    }

    /// This is what the arguments say.
    open spec fn reads(self, level: LevelView) -> bool {
        &&& self.thread_id@ == level.words[0]
        &&& count_of(level.value("offset"@)) == opt_nat(self.offset)
        &&& count_of(level.value("limit"@)) == opt_nat(self.limit)
    }

    fn read(level: &Level) -> (r: Option<OrchestratorThreadGetArgs>) {
        if level.words.len() != 1 {
            return None;
        }
        let thread_id = level.words[0].clone();
        let offset = match read_count(level.get("offset")) {
            Some(value) => value,
            None => {
                return None;
            },
        };
        let limit = match read_count(level.get("limit")) {
            Some(value) => value,
            None => {
                return None;
            },
        };
        Some(OrchestratorThreadGetArgs { thread_id, offset, limit })
    }
}

/// What `orchestrator threads resurrect` is given.
#[derive(Debug)]
pub struct OrchestratorThreadResurrectArgs {
    pub thread_id: String,
}

impl Arguments for OrchestratorThreadResurrectArgs {
    /// The options of `orchestrator threads resurrect`.
    open spec fn grammar() -> GrammarView {
        GrammarView {
            options: Seq::empty(),
            flags: Seq::empty(),
            words: 1,
            ..bare_grammar()
        }
    }

    fn grammar_of() -> (r: Grammar) {
        let mut r = Grammar::bare();
        r.words = 1;
        assert(r@ =~= Self::grammar());
        r
    }

    /// The arguments can be read.
    open spec fn accepts(level: LevelView) -> bool {
        &&& level.words.len() == 1
    }

    /// This is what the arguments say.
    open spec fn reads(self, level: LevelView) -> bool {
        &&& self.thread_id@ == level.words[0]
    }

    fn read(level: &Level) -> (r: Option<OrchestratorThreadResurrectArgs>) {
        if level.words.len() != 1 {
            return None;
        }
        let thread_id = level.words[0].clone();
        Some(OrchestratorThreadResurrectArgs { thread_id })
    }
}

/// What `orchestrator subagent turn` is given.
#[derive(Debug)]
pub struct OrchestratorSubagentTurnArgs {
    pub thread_id: String,
    pub message: String,
}

impl Arguments for OrchestratorSubagentTurnArgs {
    /// The options of `orchestrator subagent turn`.
    open spec fn grammar() -> GrammarView {
        GrammarView {
            options: seq!["thread-id"@],
            flags: Seq::empty(),
            words: 1,
            ..bare_grammar()
        }
    }

    fn grammar_of() -> (r: Grammar) {
        let mut r = Grammar::bare();
        r.options = vec!["thread-id".to_owned()];
        r.words = 1;
        assert(r@ =~= Self::grammar());
        r
    }

    /// The arguments can be read.
    open spec fn accepts(level: LevelView) -> bool {
        &&& level.words.len() == 1
        &&& level.value("thread-id"@) is Some
    }

    /// This is what the arguments say.
    open spec fn reads(self, level: LevelView) -> bool {
        &&& Some(self.thread_id@) == level.value("thread-id"@)
        &&& self.message@ == level.words[0]
    }

    fn read(level: &Level) -> (r: Option<OrchestratorSubagentTurnArgs>) {
        if level.words.len() != 1 {
            return None;
        }
        let thread_id = match level.get("thread-id") {
            Some(value) => value,
            None => {
                return None;
            },
        };
        let message = level.words[0].clone();
        Some(OrchestratorSubagentTurnArgs { thread_id, message })
    }
}

/// The commands of `daemon`.
#[derive(Debug)]
pub enum DaemonCommand {
    Start(DaemonStartArgs),
    Restart(DaemonRestartArgs),
    Stop(DaemonStopArgs),
    Status(DaemonStatusArgs),
}

impl DaemonCommand {
    /// Words that lead to a command.
    pub open spec fn knows(path: Seq<Seq<char>>) -> bool {
        if path.len() == 0 {
            true
        } else if path[0] == "start"@ {
            path.len() == 1
        } else if path[0] == "restart"@ {
            path.len() == 1
        } else if path[0] == "stop"@ {
            path.len() == 1
        } else if path[0] == "status"@ {
            path.len() == 1
        } else {
            path[0] == "help"@ && path.len() == 1
        }
    }

    fn is_known(path: &Vec<String>, from: usize) -> (r: bool)
        requires
            from <= path@.len(),
        ensures
            r == Self::knows(views(path@).skip(from as int)),
    {
        let ghost left = views(path@).skip(from as int);
        if from == path.len() {
            return true;
        }
        let word = path[from].as_str();
        assert(left[0] == word@);
        assert(left.drop_first() =~= views(path@).skip(from + 1));
        if same(word, "start") {
            path.len() - from == 1
        } else if same(word, "restart") {
            path.len() - from == 1
        } else if same(word, "stop") {
            path.len() - from == 1
        } else if same(word, "status") {
            path.len() - from == 1
        } else {
            same(word, "help") && path.len() - from == 1
        }
    }
}

impl Commands for DaemonCommand {
    /// What becomes of a command and of what it is given.
    open spec fn verdict(word: Seq<char>, rest: Seq<Seq<char>>) -> Verdict {
        if word == "start"@ {
            arguments_verdict::<DaemonStartArgs>(rest)
        } else if word == "restart"@ {
            arguments_verdict::<DaemonRestartArgs>(rest)
        } else if word == "stop"@ {
            arguments_verdict::<DaemonStopArgs>(rest)
        } else if word == "status"@ {
            arguments_verdict::<DaemonStatusArgs>(rest)
        } else if word == "help"@ && Self::knows(rest) {
            Verdict::Help
        } else {
            Verdict::Invalid
        }
    }

    /// This is what a command and what it is given say.
    open spec fn says(self, word: Seq<char>, rest: Seq<Seq<char>>) -> bool {
        match self {
            DaemonCommand::Start(args) => word == "start"@ && arguments_say(args, rest),
            DaemonCommand::Restart(args) => word == "restart"@ && arguments_say(args, rest),
            DaemonCommand::Stop(args) => word == "stop"@ && arguments_say(args, rest),
            DaemonCommand::Status(args) => word == "status"@ && arguments_say(args, rest),
        }
    }

    fn parse(word: &str, rest: &Vec<String>) -> (r: Result<DaemonCommand, UsageError>) {
        if same(word, "start") {
            match parse_arguments::<DaemonStartArgs>(rest) {
                Ok(args) => Ok(DaemonCommand::Start(args)),
                Err(e) => Err(e),
            }
        } else if same(word, "restart") {
            match parse_arguments::<DaemonRestartArgs>(rest) {
                Ok(args) => Ok(DaemonCommand::Restart(args)),
                Err(e) => Err(e),
            }
        } else if same(word, "stop") {
            match parse_arguments::<DaemonStopArgs>(rest) {
                Ok(args) => Ok(DaemonCommand::Stop(args)),
                Err(e) => Err(e),
            }
        } else if same(word, "status") {
            match parse_arguments::<DaemonStatusArgs>(rest) {
                Ok(args) => Ok(DaemonCommand::Status(args)),
                Err(e) => Err(e),
            }
        } else if same(word, "help") && Self::is_known(rest, 0) {
            Err(UsageError::Help)
        } else {
            Err(UsageError::Invalid)
        }
    }
}

/// The commands of `config`.
#[derive(Debug)]
pub enum ConfigCommand {
    Reload,
}

impl ConfigCommand {
    /// Words that lead to a command.
    pub open spec fn knows(path: Seq<Seq<char>>) -> bool {
        if path.len() == 0 {
            true
        } else if path[0] == "reload"@ {
            path.len() == 1
        } else {
            path[0] == "help"@ && path.len() == 1
        }
    }

    fn is_known(path: &Vec<String>, from: usize) -> (r: bool)
        requires
            from <= path@.len(),
        ensures
            r == Self::knows(views(path@).skip(from as int)),
    {
        let ghost left = views(path@).skip(from as int);
        if from == path.len() {
            return true;
        }
        let word = path[from].as_str();
        assert(left[0] == word@);
        assert(left.drop_first() =~= views(path@).skip(from + 1));
        if same(word, "reload") {
            path.len() - from == 1
        } else {
            same(word, "help") && path.len() - from == 1
        }
    }
}

impl Commands for ConfigCommand {
    /// What becomes of a command and of what it is given.
    open spec fn verdict(word: Seq<char>, rest: Seq<Seq<char>>) -> Verdict {
        if word == "reload"@ {
            arguments_verdict::<()>(rest)
        } else if word == "help"@ && Self::knows(rest) {
            Verdict::Help
        } else {
            Verdict::Invalid
        }
    }

    /// This is what a command and what it is given say.
    open spec fn says(self, word: Seq<char>, rest: Seq<Seq<char>>) -> bool {
        match self {
            ConfigCommand::Reload => word == "reload"@,
        }
    }

    fn parse(word: &str, rest: &Vec<String>) -> (r: Result<ConfigCommand, UsageError>) {
        if same(word, "reload") {
            match parse_arguments::<()>(rest) {
                Ok(()) => Ok(ConfigCommand::Reload),
                Err(e) => Err(e),
            }
        } else if same(word, "help") && Self::is_known(rest, 0) {
            Err(UsageError::Help)
        } else {
            Err(UsageError::Invalid)
        }
    }
}

/// The commands of `rpc`.
#[derive(Debug)]
pub enum RpcCommand {
    Call(RpcCallArgs),
}

impl RpcCommand {
    /// Words that lead to a command.
    pub open spec fn knows(path: Seq<Seq<char>>) -> bool {
        if path.len() == 0 {
            true
        } else if path[0] == "call"@ {
            path.len() == 1
        } else {
            path[0] == "help"@ && path.len() == 1
        }
    }

    fn is_known(path: &Vec<String>, from: usize) -> (r: bool)
        requires
            from <= path@.len(),
        ensures
            r == Self::knows(views(path@).skip(from as int)),
    {
        let ghost left = views(path@).skip(from as int);
        if from == path.len() {
            return true;
        }
        let word = path[from].as_str();
        assert(left[0] == word@);
        assert(left.drop_first() =~= views(path@).skip(from + 1));
        if same(word, "call") {
            path.len() - from == 1
        } else {
            same(word, "help") && path.len() - from == 1
        }
    }
}

impl Commands for RpcCommand {
    /// What becomes of a command and of what it is given.
    open spec fn verdict(word: Seq<char>, rest: Seq<Seq<char>>) -> Verdict {
        if word == "call"@ {
            arguments_verdict::<RpcCallArgs>(rest)
        } else if word == "help"@ && Self::knows(rest) {
            Verdict::Help
        } else {
            Verdict::Invalid
        }
    }

    /// This is what a command and what it is given say.
    open spec fn says(self, word: Seq<char>, rest: Seq<Seq<char>>) -> bool {
        match self {
            RpcCommand::Call(args) => word == "call"@ && arguments_say(args, rest),
        }
    }

    fn parse(word: &str, rest: &Vec<String>) -> (r: Result<RpcCommand, UsageError>) {
        if same(word, "call") {
            match parse_arguments::<RpcCallArgs>(rest) {
                Ok(args) => Ok(RpcCommand::Call(args)),
                Err(e) => Err(e),
            }
        } else if same(word, "help") && Self::is_known(rest, 0) {
            Err(UsageError::Help)
        } else {
            Err(UsageError::Invalid)
        }
    }
}

/// The commands of `e2e`.
#[derive(Debug)]
pub enum E2eCommand {
    Smoke(E2eSmokeArgs),
}

impl E2eCommand {
    /// Words that lead to a command.
    pub open spec fn knows(path: Seq<Seq<char>>) -> bool {
        if path.len() == 0 {
            true
        } else if path[0] == "smoke"@ {
            path.len() == 1
        } else {
            path[0] == "help"@ && path.len() == 1
        }
    }

    fn is_known(path: &Vec<String>, from: usize) -> (r: bool)
        requires
            from <= path@.len(),
        ensures
            r == Self::knows(views(path@).skip(from as int)),
    {
        let ghost left = views(path@).skip(from as int);
        if from == path.len() {
            return true;
        }
        let word = path[from].as_str();
        assert(left[0] == word@);
        assert(left.drop_first() =~= views(path@).skip(from + 1));
        if same(word, "smoke") {
            path.len() - from == 1
        } else {
            same(word, "help") && path.len() - from == 1
        }
    }
}

impl Commands for E2eCommand {
    /// What becomes of a command and of what it is given.
    open spec fn verdict(word: Seq<char>, rest: Seq<Seq<char>>) -> Verdict {
        if word == "smoke"@ {
            arguments_verdict::<E2eSmokeArgs>(rest)
        } else if word == "help"@ && Self::knows(rest) {
            Verdict::Help
        } else {
            Verdict::Invalid
        }
    }

    /// This is what a command and what it is given say.
    open spec fn says(self, word: Seq<char>, rest: Seq<Seq<char>>) -> bool {
        match self {
            E2eCommand::Smoke(args) => word == "smoke"@ && arguments_say(args, rest),
        }
    }

    fn parse(word: &str, rest: &Vec<String>) -> (r: Result<E2eCommand, UsageError>) {
        if same(word, "smoke") {
            match parse_arguments::<E2eSmokeArgs>(rest) {
                Ok(args) => Ok(E2eCommand::Smoke(args)),
                Err(e) => Err(e),
            }
        } else if same(word, "help") && Self::is_known(rest, 0) {
            Err(UsageError::Help)
        } else {
            Err(UsageError::Invalid)
        }
    }
}

/// The commands of `orchestrator runs`.
#[derive(Debug)]
pub enum OrchestratorRunsCommand {
    List,
    Get(OrchestratorRunGetArgs),
    Diagnose(OrchestratorRunDiagnoseArgs),
}

impl OrchestratorRunsCommand {
    /// Words that lead to a command.
    pub open spec fn knows(path: Seq<Seq<char>>) -> bool {
        if path.len() == 0 {
            true
        } else if path[0] == "list"@ {
            path.len() == 1
        } else if path[0] == "get"@ {
            path.len() == 1
        } else if path[0] == "diagnose"@ {
            path.len() == 1
        } else {
            path[0] == "help"@ && path.len() == 1
        }
    }

    fn is_known(path: &Vec<String>, from: usize) -> (r: bool)
        requires
            from <= path@.len(),
        ensures
            r == Self::knows(views(path@).skip(from as int)),
    {
        let ghost left = views(path@).skip(from as int);
        if from == path.len() {
            return true;
        }
        let word = path[from].as_str();
        assert(left[0] == word@);
        assert(left.drop_first() =~= views(path@).skip(from + 1));
        if same(word, "list") {
            path.len() - from == 1
        } else if same(word, "get") {
            path.len() - from == 1
        } else if same(word, "diagnose") {
            path.len() - from == 1
        } else {
            same(word, "help") && path.len() - from == 1
        }
    }
}

impl Commands for OrchestratorRunsCommand {
    /// What becomes of a command and of what it is given.
    open spec fn verdict(word: Seq<char>, rest: Seq<Seq<char>>) -> Verdict {
        if word == "list"@ {
            arguments_verdict::<()>(rest)
        } else if word == "get"@ {
            arguments_verdict::<OrchestratorRunGetArgs>(rest)
        } else if word == "diagnose"@ {
            arguments_verdict::<OrchestratorRunDiagnoseArgs>(rest)
        } else if word == "help"@ && Self::knows(rest) {
            Verdict::Help
        } else {
            Verdict::Invalid
        }
    }

    /// This is what a command and what it is given say.
    open spec fn says(self, word: Seq<char>, rest: Seq<Seq<char>>) -> bool {
        match self {
            OrchestratorRunsCommand::List => word == "list"@,
            OrchestratorRunsCommand::Get(args) => word == "get"@ && arguments_say(args, rest),
            OrchestratorRunsCommand::Diagnose(args) => word == "diagnose"@ && arguments_say(
                args,
                rest,
            ),
        }
    }

    fn parse(word: &str, rest: &Vec<String>) -> (r: Result<OrchestratorRunsCommand, UsageError>) {
        if same(word, "list") {
            match parse_arguments::<()>(rest) {
                Ok(()) => Ok(OrchestratorRunsCommand::List),
                Err(e) => Err(e),
            }
        } else if same(word, "get") {
            match parse_arguments::<OrchestratorRunGetArgs>(rest) {
                Ok(args) => Ok(OrchestratorRunsCommand::Get(args)),
                Err(e) => Err(e),
            }
        } else if same(word, "diagnose") {
            match parse_arguments::<OrchestratorRunDiagnoseArgs>(rest) {
                Ok(args) => Ok(OrchestratorRunsCommand::Diagnose(args)),
                Err(e) => Err(e),
            }
        } else if same(word, "help") && Self::is_known(rest, 0) {
            Err(UsageError::Help)
        } else {
            Err(UsageError::Invalid)
        }
    }
}

/// The commands of `orchestrator events`.
#[derive(Debug)]
pub enum OrchestratorEventsCommand {
    Query(OrchestratorEventsQueryArgs),
}

impl OrchestratorEventsCommand {
    /// Words that lead to a command.
    pub open spec fn knows(path: Seq<Seq<char>>) -> bool {
        if path.len() == 0 {
            true
        } else if path[0] == "query"@ {
            path.len() == 1
        } else {
            path[0] == "help"@ && path.len() == 1
        }
    }

    fn is_known(path: &Vec<String>, from: usize) -> (r: bool)
        requires
            from <= path@.len(),
        ensures
            r == Self::knows(views(path@).skip(from as int)),
    {
        let ghost left = views(path@).skip(from as int);
        if from == path.len() {
            return true;
        }
        let word = path[from].as_str();
        assert(left[0] == word@);
        assert(left.drop_first() =~= views(path@).skip(from + 1));
        if same(word, "query") {
            path.len() - from == 1
        } else {
            same(word, "help") && path.len() - from == 1
        }
    }
}

impl Commands for OrchestratorEventsCommand {
    /// What becomes of a command and of what it is given.
    open spec fn verdict(word: Seq<char>, rest: Seq<Seq<char>>) -> Verdict {
        if word == "query"@ {
            arguments_verdict::<OrchestratorEventsQueryArgs>(rest)
        } else if word == "help"@ && Self::knows(rest) {
            Verdict::Help
        } else {
            Verdict::Invalid
        }
    }

    /// This is what a command and what it is given say.
    open spec fn says(self, word: Seq<char>, rest: Seq<Seq<char>>) -> bool {
        match self {
            OrchestratorEventsCommand::Query(args) => word == "query"@ && arguments_say(args, rest),
        }
    }

    fn parse(word: &str, rest: &Vec<String>) -> (r: Result<OrchestratorEventsCommand, UsageError>) {
        if same(word, "query") {
            match parse_arguments::<OrchestratorEventsQueryArgs>(rest) {
                Ok(args) => Ok(OrchestratorEventsCommand::Query(args)),
                Err(e) => Err(e),
            }
        } else if same(word, "help") && Self::is_known(rest, 0) {
            Err(UsageError::Help)
        } else {
            Err(UsageError::Invalid)
        }
    }
}

/// The commands of `orchestrator reports`.
#[derive(Debug)]
pub enum OrchestratorReportsCommand {
    Query(OrchestratorReportsQueryArgs),
}

impl OrchestratorReportsCommand {
    /// Words that lead to a command.
    pub open spec fn knows(path: Seq<Seq<char>>) -> bool {
        if path.len() == 0 {
            true
        } else if path[0] == "query"@ {
            path.len() == 1
        } else {
            path[0] == "help"@ && path.len() == 1
        }
    }

    fn is_known(path: &Vec<String>, from: usize) -> (r: bool)
        requires
            from <= path@.len(),
        ensures
            r == Self::knows(views(path@).skip(from as int)),
    {
        let ghost left = views(path@).skip(from as int);
        if from == path.len() {
            return true;
        }
        let word = path[from].as_str();
        assert(left[0] == word@);
        assert(left.drop_first() =~= views(path@).skip(from + 1));
        if same(word, "query") {
            path.len() - from == 1
        } else {
            same(word, "help") && path.len() - from == 1
        }
    }
}

impl Commands for OrchestratorReportsCommand {
    /// What becomes of a command and of what it is given.
    open spec fn verdict(word: Seq<char>, rest: Seq<Seq<char>>) -> Verdict {
        if word == "query"@ {
            arguments_verdict::<OrchestratorReportsQueryArgs>(rest)
        } else if word == "help"@ && Self::knows(rest) {
            Verdict::Help
        } else {
            Verdict::Invalid
        }
    }

    /// This is what a command and what it is given say.
    open spec fn says(self, word: Seq<char>, rest: Seq<Seq<char>>) -> bool {
        match self {
            OrchestratorReportsCommand::Query(args) => word == "query"@ && arguments_say(
                args,
                rest,
            ),
        }
    }

    fn parse(word: &str, rest: &Vec<String>) -> (r: Result<
        OrchestratorReportsCommand,
        UsageError,
    >) {
        if same(word, "query") {
            match parse_arguments::<OrchestratorReportsQueryArgs>(rest) {
                Ok(args) => Ok(OrchestratorReportsCommand::Query(args)),
                Err(e) => Err(e),
            }
        } else if same(word, "help") && Self::is_known(rest, 0) {
            Err(UsageError::Help)
        } else {
            Err(UsageError::Invalid)
        }
    }
}

/// The commands of `orchestrator stats`.
#[derive(Debug)]
pub enum OrchestratorStatsCommand {
    Get,
}

impl OrchestratorStatsCommand {
    /// Words that lead to a command.
    pub open spec fn knows(path: Seq<Seq<char>>) -> bool {
        if path.len() == 0 {
            true
        } else if path[0] == "get"@ {
            path.len() == 1
        } else {
            path[0] == "help"@ && path.len() == 1
        }
    }

    fn is_known(path: &Vec<String>, from: usize) -> (r: bool)
        requires
            from <= path@.len(),
        ensures
            r == Self::knows(views(path@).skip(from as int)),
    {
        let ghost left = views(path@).skip(from as int);
        if from == path.len() {
            return true;
        }
        let word = path[from].as_str();
        assert(left[0] == word@);
        assert(left.drop_first() =~= views(path@).skip(from + 1));
        if same(word, "get") {
            path.len() - from == 1
        } else {
            same(word, "help") && path.len() - from == 1
        }
    }
}

impl Commands for OrchestratorStatsCommand {
    /// What becomes of a command and of what it is given.
    open spec fn verdict(word: Seq<char>, rest: Seq<Seq<char>>) -> Verdict {
        if word == "get"@ {
            arguments_verdict::<()>(rest)
        } else if word == "help"@ && Self::knows(rest) {
            Verdict::Help
        } else {
            Verdict::Invalid
        }
    }

    /// This is what a command and what it is given say.
    open spec fn says(self, word: Seq<char>, rest: Seq<Seq<char>>) -> bool {
        match self {
            OrchestratorStatsCommand::Get => word == "get"@,
        }
    }

    fn parse(word: &str, rest: &Vec<String>) -> (r: Result<OrchestratorStatsCommand, UsageError>) {
        if same(word, "get") {
            match parse_arguments::<()>(rest) {
                Ok(()) => Ok(OrchestratorStatsCommand::Get),
                Err(e) => Err(e),
            }
        } else if same(word, "help") && Self::is_known(rest, 0) {
            Err(UsageError::Help)
        } else {
            Err(UsageError::Invalid)
        }
    }
}

/// The commands of `orchestrator threads`.
#[derive(Debug)]
pub enum OrchestratorThreadsCommand {
    List,
    Get(OrchestratorThreadGetArgs),
    Resurrect(OrchestratorThreadResurrectArgs),
}

impl OrchestratorThreadsCommand {
    /// Words that lead to a command.
    pub open spec fn knows(path: Seq<Seq<char>>) -> bool {
        if path.len() == 0 {
            true
        } else if path[0] == "list"@ {
            path.len() == 1
        } else if path[0] == "get"@ {
            path.len() == 1
        } else if path[0] == "resurrect"@ {
            path.len() == 1
        } else {
            path[0] == "help"@ && path.len() == 1
        }
    }

    fn is_known(path: &Vec<String>, from: usize) -> (r: bool)
        requires
            from <= path@.len(),
        ensures
            r == Self::knows(views(path@).skip(from as int)),
    {
        let ghost left = views(path@).skip(from as int);
        if from == path.len() {
            return true;
        }
        let word = path[from].as_str();
        assert(left[0] == word@);
        assert(left.drop_first() =~= views(path@).skip(from + 1));
        if same(word, "list") {
            path.len() - from == 1
        } else if same(word, "get") {
            path.len() - from == 1
        } else if same(word, "resurrect") {
            path.len() - from == 1
        } else {
            same(word, "help") && path.len() - from == 1
        }
    }
}

impl Commands for OrchestratorThreadsCommand {
    /// What becomes of a command and of what it is given.
    open spec fn verdict(word: Seq<char>, rest: Seq<Seq<char>>) -> Verdict {
        if word == "list"@ {
            arguments_verdict::<()>(rest)
        } else if word == "get"@ {
            arguments_verdict::<OrchestratorThreadGetArgs>(rest)
        } else if word == "resurrect"@ {
            arguments_verdict::<OrchestratorThreadResurrectArgs>(rest)
        } else if word == "help"@ && Self::knows(rest) {
            Verdict::Help
        } else {
            Verdict::Invalid
        }
    }

    /// This is what a command and what it is given say.
    open spec fn says(self, word: Seq<char>, rest: Seq<Seq<char>>) -> bool {
        match self {
            OrchestratorThreadsCommand::List => word == "list"@,
            OrchestratorThreadsCommand::Get(args) => word == "get"@ && arguments_say(args, rest),
            OrchestratorThreadsCommand::Resurrect(args) => word == "resurrect"@ && arguments_say(
                args,
                rest,
            ),
        }
    }

    fn parse(word: &str, rest: &Vec<String>) -> (r: Result<
        OrchestratorThreadsCommand,
        UsageError,
    >) {
        if same(word, "list") {
            match parse_arguments::<()>(rest) {
                Ok(()) => Ok(OrchestratorThreadsCommand::List),
                Err(e) => Err(e),
            }
        } else if same(word, "get") {
            match parse_arguments::<OrchestratorThreadGetArgs>(rest) {
                Ok(args) => Ok(OrchestratorThreadsCommand::Get(args)),
                Err(e) => Err(e),
            }
        } else if same(word, "resurrect") {
            match parse_arguments::<OrchestratorThreadResurrectArgs>(rest) {
                Ok(args) => Ok(OrchestratorThreadsCommand::Resurrect(args)),
                Err(e) => Err(e),
            }
        } else if same(word, "help") && Self::is_known(rest, 0) {
            Err(UsageError::Help)
        } else {
            Err(UsageError::Invalid)
        }
    }
}

/// The commands of `orchestrator subagent`.
#[derive(Debug)]
pub enum OrchestratorSubagentCommand {
    Turn(OrchestratorSubagentTurnArgs),
}

impl OrchestratorSubagentCommand {
    /// Words that lead to a command.
    pub open spec fn knows(path: Seq<Seq<char>>) -> bool {
        if path.len() == 0 {
            true
        } else if path[0] == "turn"@ {
            path.len() == 1
        } else {
            path[0] == "help"@ && path.len() == 1
        }
    }

    fn is_known(path: &Vec<String>, from: usize) -> (r: bool)
        requires
            from <= path@.len(),
        ensures
            r == Self::knows(views(path@).skip(from as int)),
    {
        let ghost left = views(path@).skip(from as int);
        if from == path.len() {
            return true;
        }
        let word = path[from].as_str();
        assert(left[0] == word@);
        assert(left.drop_first() =~= views(path@).skip(from + 1));
        if same(word, "turn") {
            path.len() - from == 1
        } else {
            same(word, "help") && path.len() - from == 1
        }
    }
}

impl Commands for OrchestratorSubagentCommand {
    /// What becomes of a command and of what it is given.
    open spec fn verdict(word: Seq<char>, rest: Seq<Seq<char>>) -> Verdict {
        if word == "turn"@ {
            arguments_verdict::<OrchestratorSubagentTurnArgs>(rest)
        } else if word == "help"@ && Self::knows(rest) {
            Verdict::Help
        } else {
            Verdict::Invalid
        }
    }

    /// This is what a command and what it is given say.
    open spec fn says(self, word: Seq<char>, rest: Seq<Seq<char>>) -> bool {
        match self {
            OrchestratorSubagentCommand::Turn(args) => word == "turn"@ && arguments_say(args, rest),
        }
    }

    fn parse(word: &str, rest: &Vec<String>) -> (r: Result<
        OrchestratorSubagentCommand,
        UsageError,
    >) {
        if same(word, "turn") {
            match parse_arguments::<OrchestratorSubagentTurnArgs>(rest) {
                Ok(args) => Ok(OrchestratorSubagentCommand::Turn(args)),
                Err(e) => Err(e),
            }
        } else if same(word, "help") && Self::is_known(rest, 0) {
            Err(UsageError::Help)
        } else {
            Err(UsageError::Invalid)
        }
    }
}

/// The commands of `orchestrator`.
#[derive(Debug)]
pub enum OrchestratorCommand {
    Turn(OrchestratorTurnArgs),
    Chat(OrchestratorChatArgs),
    Runs { command: OrchestratorRunsCommand },
    Events { command: OrchestratorEventsCommand },
    Reports { command: OrchestratorReportsCommand },
    Stats { command: OrchestratorStatsCommand },
    Threads { command: OrchestratorThreadsCommand },
    Subagent { command: OrchestratorSubagentCommand },
}

impl OrchestratorCommand {
    /// Words that lead to a command.
    pub open spec fn knows(path: Seq<Seq<char>>) -> bool {
        if path.len() == 0 {
            true
        } else if path[0] == "turn"@ {
            path.len() == 1
        } else if path[0] == "chat"@ {
            path.len() == 1
        } else if path[0] == "runs"@ {
            OrchestratorRunsCommand::knows(path.drop_first())
        } else if path[0] == "events"@ {
            OrchestratorEventsCommand::knows(path.drop_first())
        } else if path[0] == "reports"@ {
            OrchestratorReportsCommand::knows(path.drop_first())
        } else if path[0] == "stats"@ {
            OrchestratorStatsCommand::knows(path.drop_first())
        } else if path[0] == "threads"@ {
            OrchestratorThreadsCommand::knows(path.drop_first())
        } else if path[0] == "subagent"@ {
            OrchestratorSubagentCommand::knows(path.drop_first())
        } else {
            path[0] == "help"@ && path.len() == 1
        }
    }

    fn is_known(path: &Vec<String>, from: usize) -> (r: bool)
        requires
            from <= path@.len(),
        ensures
            r == Self::knows(views(path@).skip(from as int)),
    {
        let ghost left = views(path@).skip(from as int);
        if from == path.len() {
            return true;
        }
        let word = path[from].as_str();
        assert(left[0] == word@);
        assert(left.drop_first() =~= views(path@).skip(from + 1));
        if same(word, "turn") {
            path.len() - from == 1
        } else if same(word, "chat") {
            path.len() - from == 1
        } else if same(word, "runs") {
            OrchestratorRunsCommand::is_known(path, from + 1)
        } else if same(word, "events") {
            OrchestratorEventsCommand::is_known(path, from + 1)
        } else if same(word, "reports") {
            OrchestratorReportsCommand::is_known(path, from + 1)
        } else if same(word, "stats") {
            OrchestratorStatsCommand::is_known(path, from + 1)
        } else if same(word, "threads") {
            OrchestratorThreadsCommand::is_known(path, from + 1)
        } else if same(word, "subagent") {
            OrchestratorSubagentCommand::is_known(path, from + 1)
        } else {
            same(word, "help") && path.len() - from == 1
        }
    }
}

impl Commands for OrchestratorCommand {
    /// What becomes of a command and of what it is given.
    open spec fn verdict(word: Seq<char>, rest: Seq<Seq<char>>) -> Verdict {
        if word == "turn"@ {
            arguments_verdict::<OrchestratorTurnArgs>(rest)
        } else if word == "chat"@ {
            arguments_verdict::<OrchestratorChatArgs>(rest)
        } else if word == "runs"@ {
            group_verdict::<OrchestratorRunsCommand>(rest)
        } else if word == "events"@ {
            group_verdict::<OrchestratorEventsCommand>(rest)
        } else if word == "reports"@ {
            group_verdict::<OrchestratorReportsCommand>(rest)
        } else if word == "stats"@ {
            group_verdict::<OrchestratorStatsCommand>(rest)
        } else if word == "threads"@ {
            group_verdict::<OrchestratorThreadsCommand>(rest)
        } else if word == "subagent"@ {
            group_verdict::<OrchestratorSubagentCommand>(rest)
        } else if word == "help"@ && Self::knows(rest) {
            Verdict::Help
        } else {
            Verdict::Invalid
        }
    }

    /// This is what a command and what it is given say.
    open spec fn says(self, word: Seq<char>, rest: Seq<Seq<char>>) -> bool {
        match self {
            OrchestratorCommand::Turn(args) => word == "turn"@ && arguments_say(args, rest),
            OrchestratorCommand::Chat(args) => word == "chat"@ && arguments_say(args, rest),
            OrchestratorCommand::Runs { command } => word == "runs"@ && group_says(command, rest),
            OrchestratorCommand::Events { command } => word == "events"@ && group_says(
                command,
                rest,
            ),
            OrchestratorCommand::Reports { command } => word == "reports"@ && group_says(
                command,
                rest,
            ),
            OrchestratorCommand::Stats { command } => word == "stats"@ && group_says(command, rest),
            OrchestratorCommand::Threads { command } => word == "threads"@ && group_says(
                command,
                rest,
            ),
            OrchestratorCommand::Subagent { command } => word == "subagent"@ && group_says(
                command,
                rest,
            ),
        }
    }

    fn parse(word: &str, rest: &Vec<String>) -> (r: Result<OrchestratorCommand, UsageError>) {
        if same(word, "turn") {
            match parse_arguments::<OrchestratorTurnArgs>(rest) {
                Ok(args) => Ok(OrchestratorCommand::Turn(args)),
                Err(e) => Err(e),
            }
        } else if same(word, "chat") {
            match parse_arguments::<OrchestratorChatArgs>(rest) {
                Ok(args) => Ok(OrchestratorCommand::Chat(args)),
                Err(e) => Err(e),
            }
        } else if same(word, "runs") {
            match parse_group::<OrchestratorRunsCommand>(rest) {
                Ok(command) => Ok(OrchestratorCommand::Runs { command }),
                Err(e) => Err(e),
            }
        } else if same(word, "events") {
            match parse_group::<OrchestratorEventsCommand>(rest) {
                Ok(command) => Ok(OrchestratorCommand::Events { command }),
                Err(e) => Err(e),
            }
        } else if same(word, "reports") {
            match parse_group::<OrchestratorReportsCommand>(rest) {
                Ok(command) => Ok(OrchestratorCommand::Reports { command }),
                Err(e) => Err(e),
            }
        } else if same(word, "stats") {
            match parse_group::<OrchestratorStatsCommand>(rest) {
                Ok(command) => Ok(OrchestratorCommand::Stats { command }),
                Err(e) => Err(e),
            }
        } else if same(word, "threads") {
            match parse_group::<OrchestratorThreadsCommand>(rest) {
                Ok(command) => Ok(OrchestratorCommand::Threads { command }),
                Err(e) => Err(e),
            }
        } else if same(word, "subagent") {
            match parse_group::<OrchestratorSubagentCommand>(rest) {
                Ok(command) => Ok(OrchestratorCommand::Subagent { command }),
                Err(e) => Err(e),
            }
        } else if same(word, "help") && Self::is_known(rest, 0) {
            Err(UsageError::Help)
        } else {
            Err(UsageError::Invalid)
        }
    }
}

/// The commands of `neuroctl`.
#[derive(Debug)]
pub enum Command {
    Install(InstallArgs),
    Daemon { command: DaemonCommand },
    Health,
    Config { command: ConfigCommand },
    Rpc { command: RpcCommand },
    E2e { command: E2eCommand },
    Orchestrator { command: OrchestratorCommand },
}

impl Command {
    /// Words that lead to a command.
    pub open spec fn knows(path: Seq<Seq<char>>) -> bool {
        if path.len() == 0 {
            true
        } else if path[0] == "install"@ {
            path.len() == 1
        } else if path[0] == "daemon"@ {
            DaemonCommand::knows(path.drop_first())
        } else if path[0] == "health"@ {
            path.len() == 1
        } else if path[0] == "config"@ {
            ConfigCommand::knows(path.drop_first())
        } else if path[0] == "rpc"@ {
            RpcCommand::knows(path.drop_first())
        } else if path[0] == "e2e"@ {
            E2eCommand::knows(path.drop_first())
        } else if path[0] == "orchestrator"@ {
            OrchestratorCommand::knows(path.drop_first())
        } else {
            path[0] == "help"@ && path.len() == 1
        }
    }

    fn is_known(path: &Vec<String>, from: usize) -> (r: bool)
        requires
            from <= path@.len(),
        ensures
            r == Self::knows(views(path@).skip(from as int)),
    {
        let ghost left = views(path@).skip(from as int);
        if from == path.len() {
            return true;
        }
        let word = path[from].as_str();
        assert(left[0] == word@);
        assert(left.drop_first() =~= views(path@).skip(from + 1));
        if same(word, "install") {
            path.len() - from == 1
        } else if same(word, "daemon") {
            DaemonCommand::is_known(path, from + 1)
        } else if same(word, "health") {
            path.len() - from == 1
        } else if same(word, "config") {
            ConfigCommand::is_known(path, from + 1)
        } else if same(word, "rpc") {
            RpcCommand::is_known(path, from + 1)
        } else if same(word, "e2e") {
            E2eCommand::is_known(path, from + 1)
        } else if same(word, "orchestrator") {
            OrchestratorCommand::is_known(path, from + 1)
        } else {
            same(word, "help") && path.len() - from == 1
        }
    }
}

impl Commands for Command {
    /// What becomes of a command and of what it is given.
    open spec fn verdict(word: Seq<char>, rest: Seq<Seq<char>>) -> Verdict {
        if word == "install"@ {
            arguments_verdict::<InstallArgs>(rest)
        } else if word == "daemon"@ {
            group_verdict::<DaemonCommand>(rest)
        } else if word == "health"@ {
            arguments_verdict::<()>(rest)
        } else if word == "config"@ {
            group_verdict::<ConfigCommand>(rest)
        } else if word == "rpc"@ {
            group_verdict::<RpcCommand>(rest)
        } else if word == "e2e"@ {
            group_verdict::<E2eCommand>(rest)
        } else if word == "orchestrator"@ {
            group_verdict::<OrchestratorCommand>(rest)
        } else if word == "help"@ && Self::knows(rest) {
            Verdict::Help
        } else {
            Verdict::Invalid
        }
    }

    /// This is what a command and what it is given say.
    open spec fn says(self, word: Seq<char>, rest: Seq<Seq<char>>) -> bool {
        match self {
            Command::Install(args) => word == "install"@ && arguments_say(args, rest),
            Command::Daemon { command } => word == "daemon"@ && group_says(command, rest),
            Command::Health => word == "health"@,
            Command::Config { command } => word == "config"@ && group_says(command, rest),
            Command::Rpc { command } => word == "rpc"@ && group_says(command, rest),
            Command::E2e { command } => word == "e2e"@ && group_says(command, rest),
            Command::Orchestrator { command } => word == "orchestrator"@ && group_says(
                command,
                rest,
            ),
        }
    }

    fn parse(word: &str, rest: &Vec<String>) -> (r: Result<Command, UsageError>) {
        if same(word, "install") {
            match parse_arguments::<InstallArgs>(rest) {
                Ok(args) => Ok(Command::Install(args)),
                Err(e) => Err(e),
            }
        } else if same(word, "daemon") {
            match parse_group::<DaemonCommand>(rest) {
                Ok(command) => Ok(Command::Daemon { command }),
                Err(e) => Err(e),
            }
        } else if same(word, "health") {
            match parse_arguments::<()>(rest) {
                Ok(()) => Ok(Command::Health),
                Err(e) => Err(e),
            }
        } else if same(word, "config") {
            match parse_group::<ConfigCommand>(rest) {
                Ok(command) => Ok(Command::Config { command }),
                Err(e) => Err(e),
            }
        } else if same(word, "rpc") {
            match parse_group::<RpcCommand>(rest) {
                Ok(command) => Ok(Command::Rpc { command }),
                Err(e) => Err(e),
            }
        } else if same(word, "e2e") {
            match parse_group::<E2eCommand>(rest) {
                Ok(command) => Ok(Command::E2e { command }),
                Err(e) => Err(e),
            }
        } else if same(word, "orchestrator") {
            match parse_group::<OrchestratorCommand>(rest) {
                Ok(command) => Ok(Command::Orchestrator { command }),
                Err(e) => Err(e),
            }
        } else if same(word, "help") && Self::is_known(rest, 0) {
            Err(UsageError::Help)
        } else {
            Err(UsageError::Invalid)
        }
    }
}

// ---- laws --------------------------------------------------------------------------------

proof fn lemma_option(name: Seq<char>, value: Seq<char>, grammar: GrammarView)
    requires
        grammar.options.contains(name),
        !grammar.flags.contains(name),
        name.len() > 0,
        forall|i: int| 0 <= i < name.len() ==> name[i] != '=',
        name != "help"@,
        name != "version"@,
        !is_dashed(value),
        grammar.suits(name, value),
    ensures
        scan(seq!["--"@ + name, value], grammar, no_level(), false) == Scan::Level(
            LevelView { values: seq![(name, value)], ..no_level() },
        ),
{
    let none = Seq::<Seq<char>>::empty();
    options_are_taken_with_their_values(name, value, none, grammar, no_level());
    assert(seq!["--"@ + name, value] + none =~= seq!["--"@ + name, value]);
    assert(no_level().values.push((name, value)) =~= seq![(name, value)]);
}

proof fn lemma_option_and_word(
    name: Seq<char>,
    value: Seq<char>,
    word: Seq<char>,
    grammar: GrammarView,
)
    requires
        grammar.options.contains(name),
        !grammar.flags.contains(name),
        name.len() > 0,
        forall|i: int| 0 <= i < name.len() ==> name[i] != '=',
        name != "help"@,
        name != "version"@,
        !is_dashed(value),
        !is_dashed(word),
        grammar.suits(name, value),
        grammar.words == 1,
        !grammar.has_commands,
    ensures
        scan(seq!["--"@ + name, value, word], grammar, no_level(), false) == Scan::Level(
            LevelView { values: seq![(name, value)], words: seq![word], ..no_level() },
        ),
{
    let none = Seq::<Seq<char>>::empty();
    options_are_taken_with_their_values(name, value, seq![word], grammar, no_level());
    assert(seq!["--"@ + name, value] + seq![word] =~= seq!["--"@ + name, value, word]);
    assert(no_level().values.push((name, value)) =~= seq![(name, value)]);
    let level = LevelView { values: seq![(name, value)], ..no_level() };
    words_are_taken(word, none, grammar, level);
    assert(seq![word] + none =~= seq![word]);
    assert(level.words.push(word) =~= seq![word]);
}

proof fn lemma_flag(name: Seq<char>, grammar: GrammarView)
    requires
        grammar.flags.contains(name),
        name.len() > 0,
        forall|i: int| 0 <= i < name.len() ==> name[i] != '=',
        name != "help"@,
        name != "version"@,
    ensures
        scan(seq!["--"@ + name], grammar, no_level(), false) == Scan::Level(
            LevelView { flags: seq![name], ..no_level() },
        ),
        seq![name].contains(name),
{
    let none = Seq::<Seq<char>>::empty();
    flags_are_taken(name, Seq::empty(), none, grammar, no_level());
    assert(seq!["--"@ + name] + none =~= seq!["--"@ + name]);
    assert(no_level().flags.push(name) =~= seq![name]);
    assert(seq![name][0] == name);
}

proof fn lemma_word(word: Seq<char>, grammar: GrammarView)
    requires
        !is_dashed(word),
        grammar.words == 1,
        !grammar.has_commands,
    ensures
        scan(seq![word], grammar, no_level(), false) == Scan::Level(
            LevelView { words: seq![word], ..no_level() },
        ),
{
    let none = Seq::<Seq<char>>::empty();
    words_are_taken(word, none, grammar, no_level());
    assert(seq![word] + none =~= seq![word]);
    assert(no_level().words.push(word) =~= seq![word]);
}

/// What is given with an option, or as a word, is what [`InstallArgs`] holds under that name;
/// what is not given is left out or has its default.
pub proof fn install_holds_what_is_given(it: InstallArgs, value: Seq<char>)
    requires
        !is_dashed(value),
        value.len() > 0,
    ensures
        arguments_say(it, Seq::empty()) ==> it.config is None && !it.override_config,
        arguments_verdict::<InstallArgs>(Seq::empty()) is Accepted,
        arguments_say(it, seq!["--config"@, value]) ==> opt_view(it.config) == Some(value)
            && !it.override_config,
        arguments_verdict::<InstallArgs>(seq!["--config"@, value]) is Accepted,
        arguments_say(it, seq!["--override-config"@]) ==> it.override_config && it.config is None,
        arguments_verdict::<InstallArgs>(seq!["--override-config"@]) is Accepted,
{
    reveal_strlit("--");
    reveal_strlit("--config");
    reveal_strlit("--override-config");
    reveal_strlit("config");
    reveal_strlit("help");
    reveal_strlit("override-config");
    reveal_strlit("version");
    assert("config"@.len() == 6);
    assert("help"@.len() == 4);
    assert("override-config"@.len() == 15);
    assert("version"@.len() == 7);
    reveal_with_fuel(value_in, 3);
    assert("--config"@ =~= "--"@ + "config"@);
    assert(InstallArgs::grammar().options[0] == "config"@);
    lemma_option("config"@, value, InstallArgs::grammar());
    assert("--override-config"@ =~= "--"@ + "override-config"@);
    assert(InstallArgs::grammar().flags[0] == "override-config"@);
    lemma_flag("override-config"@, InstallArgs::grammar());
}

/// What is given with an option, or as a word, is what [`DaemonStartArgs`] holds under that name;
/// what is not given is left out or has its default.
pub proof fn daemon_start_holds_what_is_given(it: DaemonStartArgs, value: Seq<char>)
    requires
        !is_dashed(value),
        value.len() > 0,
    ensures
        arguments_say(it, Seq::empty()) ==> it.config is None && it.daemon_bin is None
            && it.pid_file@ == "/tmp/neuromancer.pid"@ && !it.wait_healthy,
        arguments_verdict::<DaemonStartArgs>(Seq::empty()) is Accepted,
        arguments_say(it, seq!["--config"@, value]) ==> opt_view(it.config) == Some(value)
            && it.daemon_bin is None && it.pid_file@ == "/tmp/neuromancer.pid"@ && !it.wait_healthy,
        arguments_verdict::<DaemonStartArgs>(seq!["--config"@, value]) is Accepted,
        arguments_say(it, seq!["--daemon-bin"@, value]) ==> opt_view(it.daemon_bin) == Some(value)
            && it.config is None && it.pid_file@ == "/tmp/neuromancer.pid"@ && !it.wait_healthy,
        arguments_verdict::<DaemonStartArgs>(seq!["--daemon-bin"@, value]) is Accepted,
        arguments_say(it, seq!["--pid-file"@, value]) ==> it.pid_file@ == value && it.config is None
            && it.daemon_bin is None && !it.wait_healthy,
        arguments_verdict::<DaemonStartArgs>(seq!["--pid-file"@, value]) is Accepted,
        arguments_say(it, seq!["--wait-healthy"@]) ==> it.wait_healthy && it.config is None
            && it.daemon_bin is None && it.pid_file@ == "/tmp/neuromancer.pid"@,
        arguments_verdict::<DaemonStartArgs>(seq!["--wait-healthy"@]) is Accepted,
{
    reveal_strlit("--");
    reveal_strlit("--config");
    reveal_strlit("--daemon-bin");
    reveal_strlit("--pid-file");
    reveal_strlit("--wait-healthy");
    reveal_strlit("config");
    reveal_strlit("daemon-bin");
    reveal_strlit("help");
    reveal_strlit("pid-file");
    reveal_strlit("version");
    reveal_strlit("wait-healthy");
    assert("config"@.len() == 6);
    assert("daemon-bin"@.len() == 10);
    assert("help"@.len() == 4);
    assert("pid-file"@.len() == 8);
    assert("version"@.len() == 7);
    assert("wait-healthy"@.len() == 12);
    reveal_with_fuel(value_in, 3);
    assert("--config"@ =~= "--"@ + "config"@);
    assert(DaemonStartArgs::grammar().options[0] == "config"@);
    lemma_option("config"@, value, DaemonStartArgs::grammar());
    assert("--daemon-bin"@ =~= "--"@ + "daemon-bin"@);
    assert(DaemonStartArgs::grammar().options[1] == "daemon-bin"@);
    lemma_option("daemon-bin"@, value, DaemonStartArgs::grammar());
    assert("--pid-file"@ =~= "--"@ + "pid-file"@);
    assert(DaemonStartArgs::grammar().options[2] == "pid-file"@);
    lemma_option("pid-file"@, value, DaemonStartArgs::grammar());
    assert("--wait-healthy"@ =~= "--"@ + "wait-healthy"@);
    assert(DaemonStartArgs::grammar().flags[0] == "wait-healthy"@);
    lemma_flag("wait-healthy"@, DaemonStartArgs::grammar());
}

/// What is given with an option, or as a word, is what [`DaemonRestartArgs`] holds under that
/// name; what is not given is left out or has its default.
pub proof fn daemon_restart_holds_what_is_given(it: DaemonRestartArgs, value: Seq<char>)
    requires
        !is_dashed(value),
        value.len() > 0,
    ensures
        arguments_say(it, Seq::empty()) ==> it.config is None && it.daemon_bin is None
            && it.pid_file@ == "/tmp/neuromancer.pid"@ && it.grace == Duration::from_secs(15)
            && !it.wait_healthy,
        arguments_verdict::<DaemonRestartArgs>(Seq::empty()) is Accepted,
        arguments_say(it, seq!["--config"@, value]) ==> opt_view(it.config) == Some(value)
            && it.daemon_bin is None && it.pid_file@ == "/tmp/neuromancer.pid"@
            && it.grace == Duration::from_secs(15) && !it.wait_healthy,
        arguments_verdict::<DaemonRestartArgs>(seq!["--config"@, value]) is Accepted,
        arguments_say(it, seq!["--daemon-bin"@, value]) ==> opt_view(it.daemon_bin) == Some(value)
            && it.config is None && it.pid_file@ == "/tmp/neuromancer.pid"@
            && it.grace == Duration::from_secs(15) && !it.wait_healthy,
        arguments_verdict::<DaemonRestartArgs>(seq!["--daemon-bin"@, value]) is Accepted,
        arguments_say(it, seq!["--pid-file"@, value]) ==> it.pid_file@ == value && it.config is None
            && it.daemon_bin is None && it.grace == Duration::from_secs(15) && !it.wait_healthy,
        arguments_verdict::<DaemonRestartArgs>(seq!["--pid-file"@, value]) is Accepted,
        duration_read(value) is Ok ==> (arguments_say(it, seq!["--grace"@, value])
            ==> Ok::<Duration, Seq<char>>(it.grace) == duration_read(value) && it.config is None
            && it.daemon_bin is None && it.pid_file@ == "/tmp/neuromancer.pid"@ && !it.wait_healthy)
            && arguments_verdict::<DaemonRestartArgs>(seq!["--grace"@, value]) is Accepted,
        arguments_say(it, seq!["--wait-healthy"@]) ==> it.wait_healthy && it.config is None
            && it.daemon_bin is None && it.pid_file@ == "/tmp/neuromancer.pid"@
            && it.grace == Duration::from_secs(15),
        arguments_verdict::<DaemonRestartArgs>(seq!["--wait-healthy"@]) is Accepted,
{
    reveal_strlit("--");
    reveal_strlit("--config");
    reveal_strlit("--daemon-bin");
    reveal_strlit("--pid-file");
    reveal_strlit("--grace");
    reveal_strlit("--wait-healthy");
    reveal_strlit("config");
    reveal_strlit("daemon-bin");
    reveal_strlit("grace");
    reveal_strlit("help");
    reveal_strlit("pid-file");
    reveal_strlit("version");
    reveal_strlit("wait-healthy");
    assert("config"@.len() == 6);
    assert("daemon-bin"@.len() == 10);
    assert("grace"@.len() == 5);
    assert("help"@.len() == 4);
    assert("pid-file"@.len() == 8);
    assert("version"@.len() == 7);
    assert("wait-healthy"@.len() == 12);
    reveal_with_fuel(value_in, 3);
    assert("--config"@ =~= "--"@ + "config"@);
    assert(DaemonRestartArgs::grammar().options[0] == "config"@);
    lemma_option("config"@, value, DaemonRestartArgs::grammar());
    assert("--daemon-bin"@ =~= "--"@ + "daemon-bin"@);
    assert(DaemonRestartArgs::grammar().options[1] == "daemon-bin"@);
    lemma_option("daemon-bin"@, value, DaemonRestartArgs::grammar());
    assert("--pid-file"@ =~= "--"@ + "pid-file"@);
    assert(DaemonRestartArgs::grammar().options[2] == "pid-file"@);
    lemma_option("pid-file"@, value, DaemonRestartArgs::grammar());
    assert("--grace"@ =~= "--"@ + "grace"@);
    assert(DaemonRestartArgs::grammar().options[3] == "grace"@);
    if duration_read(value) is Ok {
        lemma_option("grace"@, value, DaemonRestartArgs::grammar());
    }
    assert("--wait-healthy"@ =~= "--"@ + "wait-healthy"@);
    assert(DaemonRestartArgs::grammar().flags[0] == "wait-healthy"@);
    lemma_flag("wait-healthy"@, DaemonRestartArgs::grammar());
}

/// What is given with an option, or as a word, is what [`DaemonStopArgs`] holds under that name;
/// what is not given is left out or has its default.
pub proof fn daemon_stop_holds_what_is_given(it: DaemonStopArgs, value: Seq<char>)
    requires
        !is_dashed(value),
        value.len() > 0,
    ensures
        arguments_say(it, Seq::empty()) ==> it.pid_file@ == "/tmp/neuromancer.pid"@
            && it.grace == Duration::from_secs(15),
        arguments_verdict::<DaemonStopArgs>(Seq::empty()) is Accepted,
        arguments_say(it, seq!["--pid-file"@, value]) ==> it.pid_file@ == value
            && it.grace == Duration::from_secs(15),
        arguments_verdict::<DaemonStopArgs>(seq!["--pid-file"@, value]) is Accepted,
        duration_read(value) is Ok ==> (arguments_say(it, seq!["--grace"@, value])
            ==> Ok::<Duration, Seq<char>>(it.grace) == duration_read(value)
            && it.pid_file@ == "/tmp/neuromancer.pid"@)
            && arguments_verdict::<DaemonStopArgs>(seq!["--grace"@, value]) is Accepted,
{
    reveal_strlit("--");
    reveal_strlit("--pid-file");
    reveal_strlit("--grace");
    reveal_strlit("grace");
    reveal_strlit("help");
    reveal_strlit("pid-file");
    reveal_strlit("version");
    assert("grace"@.len() == 5);
    assert("help"@.len() == 4);
    assert("pid-file"@.len() == 8);
    assert("version"@.len() == 7);
    reveal_with_fuel(value_in, 3);
    assert("--pid-file"@ =~= "--"@ + "pid-file"@);
    assert(DaemonStopArgs::grammar().options[0] == "pid-file"@);
    lemma_option("pid-file"@, value, DaemonStopArgs::grammar());
    assert("--grace"@ =~= "--"@ + "grace"@);
    assert(DaemonStopArgs::grammar().options[1] == "grace"@);
    if duration_read(value) is Ok {
        lemma_option("grace"@, value, DaemonStopArgs::grammar());
    }
}

/// What is given with an option, or as a word, is what [`DaemonStatusArgs`] holds under that
/// name; what is not given is left out or has its default.
pub proof fn daemon_status_holds_what_is_given(it: DaemonStatusArgs, value: Seq<char>)
    requires
        !is_dashed(value),
        value.len() > 0,
    ensures
        arguments_say(it, Seq::empty()) ==> it.pid_file@ == "/tmp/neuromancer.pid"@,
        arguments_verdict::<DaemonStatusArgs>(Seq::empty()) is Accepted,
        arguments_say(it, seq!["--pid-file"@, value]) ==> it.pid_file@ == value,
        arguments_verdict::<DaemonStatusArgs>(seq!["--pid-file"@, value]) is Accepted,
{
    reveal_strlit("--");
    reveal_strlit("--pid-file");
    reveal_strlit("help");
    reveal_strlit("pid-file");
    reveal_strlit("version");
    assert("help"@.len() == 4);
    assert("pid-file"@.len() == 8);
    assert("version"@.len() == 7);
    reveal_with_fuel(value_in, 3);
    assert("--pid-file"@ =~= "--"@ + "pid-file"@);
    assert(DaemonStatusArgs::grammar().options[0] == "pid-file"@);
    lemma_option("pid-file"@, value, DaemonStatusArgs::grammar());
}

/// What is given with an option, or as a word, is what [`RpcCallArgs`] holds under that name;
/// what is not given is left out or has its default.
pub proof fn rpc_call_holds_what_is_given(it: RpcCallArgs, value: Seq<char>)
    requires
        !is_dashed(value),
        value.len() > 0,
    ensures
        arguments_say(it, seq!["--method"@, value]) ==> it.method@ == value && it.params is None,
        arguments_verdict::<RpcCallArgs>(seq!["--method"@, value]) is Accepted,
        !(arguments_verdict::<RpcCallArgs>(Seq::empty()) is Accepted),
{
    reveal_strlit("--");
    reveal_strlit("--method");
    reveal_strlit("--params");
    reveal_strlit("help");
    reveal_strlit("method");
    reveal_strlit("params");
    reveal_strlit("version");
    assert("help"@.len() == 4);
    assert("method"@.len() == 6);
    assert("params"@.len() == 6);
    assert("version"@.len() == 7);
    assert("method"@[0] == 'm');
    assert("params"@[0] == 'p');
    reveal_with_fuel(value_in, 3);
    assert("--method"@ =~= "--"@ + "method"@);
    assert(RpcCallArgs::grammar().options[0] == "method"@);
    lemma_option("method"@, value, RpcCallArgs::grammar());
}

/// What is given with an option, or as a word, is what [`E2eSmokeArgs`] holds under that name;
/// what is not given is left out or has its default.
pub proof fn e2e_smoke_holds_what_is_given(it: E2eSmokeArgs, value: Seq<char>)
    requires
        !is_dashed(value),
        value.len() > 0,
    ensures
        arguments_say(it, Seq::empty()) ==> it.config is None && it.daemon_bin is None
            && it.pid_file@ == "/tmp/neuromancer.pid"@,
        arguments_verdict::<E2eSmokeArgs>(Seq::empty()) is Accepted,
        arguments_say(it, seq!["--config"@, value]) ==> opt_view(it.config) == Some(value)
            && it.daemon_bin is None && it.pid_file@ == "/tmp/neuromancer.pid"@,
        arguments_verdict::<E2eSmokeArgs>(seq!["--config"@, value]) is Accepted,
        arguments_say(it, seq!["--daemon-bin"@, value]) ==> opt_view(it.daemon_bin) == Some(value)
            && it.config is None && it.pid_file@ == "/tmp/neuromancer.pid"@,
        arguments_verdict::<E2eSmokeArgs>(seq!["--daemon-bin"@, value]) is Accepted,
        arguments_say(it, seq!["--pid-file"@, value]) ==> it.pid_file@ == value && it.config is None
            && it.daemon_bin is None,
        arguments_verdict::<E2eSmokeArgs>(seq!["--pid-file"@, value]) is Accepted,
{
    reveal_strlit("--");
    reveal_strlit("--config");
    reveal_strlit("--daemon-bin");
    reveal_strlit("--pid-file");
    reveal_strlit("config");
    reveal_strlit("daemon-bin");
    reveal_strlit("help");
    reveal_strlit("pid-file");
    reveal_strlit("version");
    assert("config"@.len() == 6);
    assert("daemon-bin"@.len() == 10);
    assert("help"@.len() == 4);
    assert("pid-file"@.len() == 8);
    assert("version"@.len() == 7);
    reveal_with_fuel(value_in, 3);
    assert("--config"@ =~= "--"@ + "config"@);
    assert(E2eSmokeArgs::grammar().options[0] == "config"@);
    lemma_option("config"@, value, E2eSmokeArgs::grammar());
    assert("--daemon-bin"@ =~= "--"@ + "daemon-bin"@);
    assert(E2eSmokeArgs::grammar().options[1] == "daemon-bin"@);
    lemma_option("daemon-bin"@, value, E2eSmokeArgs::grammar());
    assert("--pid-file"@ =~= "--"@ + "pid-file"@);
    assert(E2eSmokeArgs::grammar().options[2] == "pid-file"@);
    lemma_option("pid-file"@, value, E2eSmokeArgs::grammar());
}

/// What is given with an option, or as a word, is what [`OrchestratorTurnArgs`] holds under that
/// name; what is not given is left out or has its default.
pub proof fn orchestrator_turn_holds_what_is_given(it: OrchestratorTurnArgs, word: Seq<char>)
    requires
        !is_dashed(word),
    ensures
        arguments_say(it, seq![word]) ==> it.message@ == word,
        arguments_verdict::<OrchestratorTurnArgs>(seq![word]) is Accepted,
{
    lemma_word(word, OrchestratorTurnArgs::grammar());
}

/// What is given with an option, or as a word, is what [`OrchestratorChatArgs`] holds under that
/// name; what is not given is left out or has its default.
pub proof fn orchestrator_chat_holds_what_is_given(it: OrchestratorChatArgs)
    ensures
        arguments_verdict::<OrchestratorChatArgs>(Seq::empty()) is Accepted,
{
}

/// What is given with an option, or as a word, is what [`OrchestratorRunGetArgs`] holds under
/// that name; what is not given is left out or has its default.
pub proof fn orchestrator_run_get_holds_what_is_given(it: OrchestratorRunGetArgs, word: Seq<char>)
    requires
        !is_dashed(word),
    ensures
        arguments_say(it, seq![word]) ==> it.run_id@ == word,
        arguments_verdict::<OrchestratorRunGetArgs>(seq![word]) is Accepted,
{
    lemma_word(word, OrchestratorRunGetArgs::grammar());
}

/// What is given with an option, or as a word, is what [`OrchestratorRunDiagnoseArgs`] holds
/// under that name; what is not given is left out or has its default.
pub proof fn orchestrator_run_diagnose_holds_what_is_given(
    it: OrchestratorRunDiagnoseArgs,
    word: Seq<char>,
)
    requires
        !is_dashed(word),
    ensures
        arguments_say(it, seq![word]) ==> it.run_id@ == word,
        arguments_verdict::<OrchestratorRunDiagnoseArgs>(seq![word]) is Accepted,
{
    lemma_word(word, OrchestratorRunDiagnoseArgs::grammar());
}

/// What is given with an option, or as a word, is what [`OrchestratorEventsQueryArgs`] holds
/// under that name; what is not given is left out or has its default.
pub proof fn orchestrator_events_query_holds_what_is_given(
    it: OrchestratorEventsQueryArgs,
    value: Seq<char>,
)
    requires
        !is_dashed(value),
        value.len() > 0,
    ensures
        arguments_say(it, Seq::empty()) ==> it.thread_id is None && it.run_id is None
            && it.agent_id is None && it.tool_id is None && it.event_type is None
            && it.error_contains is None && it.offset is None && it.limit is None,
        arguments_verdict::<OrchestratorEventsQueryArgs>(Seq::empty()) is Accepted,
        arguments_say(it, seq!["--thread-id"@, value]) ==> opt_view(it.thread_id) == Some(value)
            && it.run_id is None && it.agent_id is None && it.tool_id is None
            && it.event_type is None && it.error_contains is None && it.offset is None
            && it.limit is None,
        arguments_verdict::<OrchestratorEventsQueryArgs>(seq!["--thread-id"@, value]) is Accepted,
        arguments_say(it, seq!["--run-id"@, value]) ==> opt_view(it.run_id) == Some(value)
            && it.thread_id is None && it.agent_id is None && it.tool_id is None
            && it.event_type is None && it.error_contains is None && it.offset is None
            && it.limit is None,
        arguments_verdict::<OrchestratorEventsQueryArgs>(seq!["--run-id"@, value]) is Accepted,
        arguments_say(it, seq!["--agent-id"@, value]) ==> opt_view(it.agent_id) == Some(value)
            && it.thread_id is None && it.run_id is None && it.tool_id is None
            && it.event_type is None && it.error_contains is None && it.offset is None
            && it.limit is None,
        arguments_verdict::<OrchestratorEventsQueryArgs>(seq!["--agent-id"@, value]) is Accepted,
        arguments_say(it, seq!["--tool-id"@, value]) ==> opt_view(it.tool_id) == Some(value)
            && it.thread_id is None && it.run_id is None && it.agent_id is None
            && it.event_type is None && it.error_contains is None && it.offset is None
            && it.limit is None,
        arguments_verdict::<OrchestratorEventsQueryArgs>(seq!["--tool-id"@, value]) is Accepted,
        arguments_say(it, seq!["--event-type"@, value]) ==> opt_view(it.event_type) == Some(value)
            && it.thread_id is None && it.run_id is None && it.agent_id is None
            && it.tool_id is None && it.error_contains is None && it.offset is None
            && it.limit is None,
        arguments_verdict::<OrchestratorEventsQueryArgs>(seq!["--event-type"@, value]) is Accepted,
        arguments_say(it, seq!["--error-contains"@, value])
            ==> opt_view(it.error_contains) == Some(value) && it.thread_id is None
            && it.run_id is None && it.agent_id is None && it.tool_id is None
            && it.event_type is None && it.offset is None && it.limit is None,
        arguments_verdict::<OrchestratorEventsQueryArgs>(seq!["--error-contains"@, value]) is Accepted,
        count_of(Some(value)) is Some ==> (arguments_say(it, seq!["--offset"@, value])
            ==> opt_nat(it.offset) == count_of(Some(value)) && it.thread_id is None
            && it.run_id is None && it.agent_id is None && it.tool_id is None
            && it.event_type is None && it.error_contains is None && it.limit is None)
            && arguments_verdict::<OrchestratorEventsQueryArgs>(seq!["--offset"@, value]) is Accepted,
        count_of(Some(value)) is Some ==> (arguments_say(it, seq!["--limit"@, value])
            ==> opt_nat(it.limit) == count_of(Some(value)) && it.thread_id is None
            && it.run_id is None && it.agent_id is None && it.tool_id is None
            && it.event_type is None && it.error_contains is None && it.offset is None)
            && arguments_verdict::<OrchestratorEventsQueryArgs>(seq!["--limit"@, value]) is Accepted,
{
    reveal_strlit("--");
    reveal_strlit("--thread-id");
    reveal_strlit("--run-id");
    reveal_strlit("--agent-id");
    reveal_strlit("--tool-id");
    reveal_strlit("--event-type");
    reveal_strlit("--error-contains");
    reveal_strlit("--offset");
    reveal_strlit("--limit");
    reveal_strlit("agent-id");
    reveal_strlit("error-contains");
    reveal_strlit("event-type");
    reveal_strlit("help");
    reveal_strlit("limit");
    reveal_strlit("offset");
    reveal_strlit("run-id");
    reveal_strlit("thread-id");
    reveal_strlit("tool-id");
    reveal_strlit("version");
    assert("agent-id"@.len() == 8);
    assert("error-contains"@.len() == 14);
    assert("event-type"@.len() == 10);
    assert("help"@.len() == 4);
    assert("limit"@.len() == 5);
    assert("offset"@.len() == 6);
    assert("run-id"@.len() == 6);
    assert("thread-id"@.len() == 9);
    assert("tool-id"@.len() == 7);
    assert("version"@.len() == 7);
    assert("offset"@[0] == 'o');
    assert("run-id"@[0] == 'r');
    assert("tool-id"@[0] == 't');
    assert("version"@[0] == 'v');
    reveal_with_fuel(value_in, 3);
    assert("--thread-id"@ =~= "--"@ + "thread-id"@);
    assert(OrchestratorEventsQueryArgs::grammar().options[0] == "thread-id"@);
    lemma_option("thread-id"@, value, OrchestratorEventsQueryArgs::grammar());
    assert("--run-id"@ =~= "--"@ + "run-id"@);
    assert(OrchestratorEventsQueryArgs::grammar().options[1] == "run-id"@);
    lemma_option("run-id"@, value, OrchestratorEventsQueryArgs::grammar());
    assert("--agent-id"@ =~= "--"@ + "agent-id"@);
    assert(OrchestratorEventsQueryArgs::grammar().options[2] == "agent-id"@);
    lemma_option("agent-id"@, value, OrchestratorEventsQueryArgs::grammar());
    assert("--tool-id"@ =~= "--"@ + "tool-id"@);
    assert(OrchestratorEventsQueryArgs::grammar().options[3] == "tool-id"@);
    lemma_option("tool-id"@, value, OrchestratorEventsQueryArgs::grammar());
    assert("--event-type"@ =~= "--"@ + "event-type"@);
    assert(OrchestratorEventsQueryArgs::grammar().options[4] == "event-type"@);
    lemma_option("event-type"@, value, OrchestratorEventsQueryArgs::grammar());
    assert("--error-contains"@ =~= "--"@ + "error-contains"@);
    assert(OrchestratorEventsQueryArgs::grammar().options[5] == "error-contains"@);
    lemma_option("error-contains"@, value, OrchestratorEventsQueryArgs::grammar());
    assert("--offset"@ =~= "--"@ + "offset"@);
    assert(OrchestratorEventsQueryArgs::grammar().options[6] == "offset"@);
    if count_of(Some(value)) is Some {
        lemma_option("offset"@, value, OrchestratorEventsQueryArgs::grammar());
    }
    assert("--limit"@ =~= "--"@ + "limit"@);
    assert(OrchestratorEventsQueryArgs::grammar().options[7] == "limit"@);
    if count_of(Some(value)) is Some {
        lemma_option("limit"@, value, OrchestratorEventsQueryArgs::grammar());
    }
}

/// What is given with an option, or as a word, is what [`OrchestratorReportsQueryArgs`] holds
/// under that name; what is not given is left out or has its default.
pub proof fn orchestrator_reports_query_holds_what_is_given(
    it: OrchestratorReportsQueryArgs,
    value: Seq<char>,
)
    requires
        !is_dashed(value),
        value.len() > 0,
    ensures
        arguments_say(it, Seq::empty()) ==> it.thread_id is None && it.run_id is None
            && it.agent_id is None && it.report_type is None && it.include_remediation is None
            && it.offset is None && it.limit is None,
        arguments_verdict::<OrchestratorReportsQueryArgs>(Seq::empty()) is Accepted,
        arguments_say(it, seq!["--thread-id"@, value]) ==> opt_view(it.thread_id) == Some(value)
            && it.run_id is None && it.agent_id is None && it.report_type is None
            && it.include_remediation is None && it.offset is None && it.limit is None,
        arguments_verdict::<OrchestratorReportsQueryArgs>(seq!["--thread-id"@, value]) is Accepted,
        arguments_say(it, seq!["--run-id"@, value]) ==> opt_view(it.run_id) == Some(value)
            && it.thread_id is None && it.agent_id is None && it.report_type is None
            && it.include_remediation is None && it.offset is None && it.limit is None,
        arguments_verdict::<OrchestratorReportsQueryArgs>(seq!["--run-id"@, value]) is Accepted,
        arguments_say(it, seq!["--agent-id"@, value]) ==> opt_view(it.agent_id) == Some(value)
            && it.thread_id is None && it.run_id is None && it.report_type is None
            && it.include_remediation is None && it.offset is None && it.limit is None,
        arguments_verdict::<OrchestratorReportsQueryArgs>(seq!["--agent-id"@, value]) is Accepted,
        arguments_say(it, seq!["--report-type"@, value]) ==> opt_view(it.report_type) == Some(value)
            && it.thread_id is None && it.run_id is None && it.agent_id is None
            && it.include_remediation is None && it.offset is None && it.limit is None,
        arguments_verdict::<OrchestratorReportsQueryArgs>(seq!["--report-type"@, value]) is Accepted,
        truth_of(Some(value)) is Some ==> (arguments_say(it, seq!["--include-remediation"@, value])
            ==> it.include_remediation == truth_of(Some(value)) && it.thread_id is None
            && it.run_id is None && it.agent_id is None && it.report_type is None
            && it.offset is None && it.limit is None)
            && arguments_verdict::<OrchestratorReportsQueryArgs>(seq!["--include-remediation"@, value]) is Accepted,
        count_of(Some(value)) is Some ==> (arguments_say(it, seq!["--offset"@, value])
            ==> opt_nat(it.offset) == count_of(Some(value)) && it.thread_id is None
            && it.run_id is None && it.agent_id is None && it.report_type is None
            && it.include_remediation is None && it.limit is None)
            && arguments_verdict::<OrchestratorReportsQueryArgs>(seq!["--offset"@, value]) is Accepted,
        count_of(Some(value)) is Some ==> (arguments_say(it, seq!["--limit"@, value])
            ==> opt_nat(it.limit) == count_of(Some(value)) && it.thread_id is None
            && it.run_id is None && it.agent_id is None && it.report_type is None
            && it.include_remediation is None && it.offset is None)
            && arguments_verdict::<OrchestratorReportsQueryArgs>(seq!["--limit"@, value]) is Accepted,
{
    reveal_strlit("--");
    reveal_strlit("--thread-id");
    reveal_strlit("--run-id");
    reveal_strlit("--agent-id");
    reveal_strlit("--report-type");
    reveal_strlit("--include-remediation");
    reveal_strlit("--offset");
    reveal_strlit("--limit");
    reveal_strlit("agent-id");
    reveal_strlit("help");
    reveal_strlit("include-remediation");
    reveal_strlit("limit");
    reveal_strlit("offset");
    reveal_strlit("report-type");
    reveal_strlit("run-id");
    reveal_strlit("thread-id");
    reveal_strlit("version");
    assert("agent-id"@.len() == 8);
    assert("help"@.len() == 4);
    assert("include-remediation"@.len() == 19);
    assert("limit"@.len() == 5);
    assert("offset"@.len() == 6);
    assert("report-type"@.len() == 11);
    assert("run-id"@.len() == 6);
    assert("thread-id"@.len() == 9);
    assert("version"@.len() == 7);
    assert("offset"@[0] == 'o');
    assert("run-id"@[0] == 'r');
    reveal_with_fuel(value_in, 3);
    assert("--thread-id"@ =~= "--"@ + "thread-id"@);
    assert(OrchestratorReportsQueryArgs::grammar().options[0] == "thread-id"@);
    lemma_option("thread-id"@, value, OrchestratorReportsQueryArgs::grammar());
    assert("--run-id"@ =~= "--"@ + "run-id"@);
    assert(OrchestratorReportsQueryArgs::grammar().options[1] == "run-id"@);
    lemma_option("run-id"@, value, OrchestratorReportsQueryArgs::grammar());
    assert("--agent-id"@ =~= "--"@ + "agent-id"@);
    assert(OrchestratorReportsQueryArgs::grammar().options[2] == "agent-id"@);
    lemma_option("agent-id"@, value, OrchestratorReportsQueryArgs::grammar());
    assert("--report-type"@ =~= "--"@ + "report-type"@);
    assert(OrchestratorReportsQueryArgs::grammar().options[3] == "report-type"@);
    lemma_option("report-type"@, value, OrchestratorReportsQueryArgs::grammar());
    assert("--include-remediation"@ =~= "--"@ + "include-remediation"@);
    assert(OrchestratorReportsQueryArgs::grammar().options[4] == "include-remediation"@);
    if truth_of(Some(value)) is Some {
        lemma_option("include-remediation"@, value, OrchestratorReportsQueryArgs::grammar());
    }
    assert("--offset"@ =~= "--"@ + "offset"@);
    assert(OrchestratorReportsQueryArgs::grammar().options[5] == "offset"@);
    if count_of(Some(value)) is Some {
        lemma_option("offset"@, value, OrchestratorReportsQueryArgs::grammar());
    }
    assert("--limit"@ =~= "--"@ + "limit"@);
    assert(OrchestratorReportsQueryArgs::grammar().options[6] == "limit"@);
    if count_of(Some(value)) is Some {
        lemma_option("limit"@, value, OrchestratorReportsQueryArgs::grammar());
    }
}

/// What is given with an option, or as a word, is what [`OrchestratorThreadGetArgs`] holds under
/// that name; what is not given is left out or has its default.
pub proof fn orchestrator_thread_get_holds_what_is_given(
    it: OrchestratorThreadGetArgs,
    value: Seq<char>,
    word: Seq<char>,
)
    requires
        !is_dashed(value),
        value.len() > 0,
        !is_dashed(word),
    ensures
        arguments_say(it, seq![word]) ==> it.thread_id@ == word && it.offset is None
            && it.limit is None,
        arguments_verdict::<OrchestratorThreadGetArgs>(seq![word]) is Accepted,
        count_of(Some(value)) is Some ==> (arguments_say(it, seq!["--offset"@, value, word])
            ==> opt_nat(it.offset) == count_of(Some(value)) && it.thread_id@ == word
            && it.limit is None)
            && arguments_verdict::<OrchestratorThreadGetArgs>(seq!["--offset"@, value, word]) is Accepted,
        count_of(Some(value)) is Some ==> (arguments_say(it, seq!["--limit"@, value, word])
            ==> opt_nat(it.limit) == count_of(Some(value)) && it.thread_id@ == word
            && it.offset is None)
            && arguments_verdict::<OrchestratorThreadGetArgs>(seq!["--limit"@, value, word]) is Accepted,
{
    reveal_strlit("--");
    reveal_strlit("--offset");
    reveal_strlit("--limit");
    reveal_strlit("help");
    reveal_strlit("limit");
    reveal_strlit("offset");
    reveal_strlit("version");
    assert("help"@.len() == 4);
    assert("limit"@.len() == 5);
    assert("offset"@.len() == 6);
    assert("version"@.len() == 7);
    reveal_with_fuel(value_in, 3);
    lemma_word(word, OrchestratorThreadGetArgs::grammar());
    assert("--offset"@ =~= "--"@ + "offset"@);
    assert(OrchestratorThreadGetArgs::grammar().options[0] == "offset"@);
    if count_of(Some(value)) is Some {
        lemma_option_and_word("offset"@, value, word, OrchestratorThreadGetArgs::grammar());
    }
    assert("--limit"@ =~= "--"@ + "limit"@);
    assert(OrchestratorThreadGetArgs::grammar().options[1] == "limit"@);
    if count_of(Some(value)) is Some {
        lemma_option_and_word("limit"@, value, word, OrchestratorThreadGetArgs::grammar());
    }
}

/// What is given with an option, or as a word, is what [`OrchestratorThreadResurrectArgs`] holds
/// under that name; what is not given is left out or has its default.
pub proof fn orchestrator_thread_resurrect_holds_what_is_given(
    it: OrchestratorThreadResurrectArgs,
    word: Seq<char>,
)
    requires
        !is_dashed(word),
    ensures
        arguments_say(it, seq![word]) ==> it.thread_id@ == word,
        arguments_verdict::<OrchestratorThreadResurrectArgs>(seq![word]) is Accepted,
{
    lemma_word(word, OrchestratorThreadResurrectArgs::grammar());
}

/// What is given with an option, or as a word, is what [`OrchestratorSubagentTurnArgs`] holds
/// under that name; what is not given is left out or has its default.
pub proof fn orchestrator_subagent_turn_holds_what_is_given(
    it: OrchestratorSubagentTurnArgs,
    value: Seq<char>,
    word: Seq<char>,
)
    requires
        !is_dashed(value),
        value.len() > 0,
        !is_dashed(word),
    ensures
        arguments_say(it, seq!["--thread-id"@, value, word]) ==> it.thread_id@ == value
            && it.message@ == word,
        arguments_verdict::<OrchestratorSubagentTurnArgs>(seq!["--thread-id"@, value, word]) is Accepted,
        !(arguments_verdict::<OrchestratorSubagentTurnArgs>(Seq::empty()) is Accepted),
{
    reveal_strlit("--");
    reveal_strlit("--thread-id");
    reveal_strlit("help");
    reveal_strlit("thread-id");
    reveal_strlit("version");
    assert("help"@.len() == 4);
    assert("thread-id"@.len() == 9);
    assert("version"@.len() == 7);
    reveal_with_fuel(value_in, 3);
    lemma_word(word, OrchestratorSubagentTurnArgs::grammar());
    assert("--thread-id"@ =~= "--"@ + "thread-id"@);
    assert(OrchestratorSubagentTurnArgs::grammar().options[0] == "thread-id"@);
    lemma_option_and_word("thread-id"@, value, word, OrchestratorSubagentTurnArgs::grammar());
}

/// Each word of [`DaemonCommand`] leads to its own command, with the arguments behind it; help is
/// given on
/// each of them, and no other word is known.
pub proof fn daemon_words_lead_to_their_commands(
    it: DaemonCommand,
    word: Seq<char>,
    rest: Seq<Seq<char>>,
)
    ensures
        DaemonCommand::verdict("start"@, rest) == arguments_verdict::<DaemonStartArgs>(rest),
        DaemonCommand::verdict("restart"@, rest) == arguments_verdict::<DaemonRestartArgs>(rest),
        DaemonCommand::verdict("stop"@, rest) == arguments_verdict::<DaemonStopArgs>(rest),
        DaemonCommand::verdict("status"@, rest) == arguments_verdict::<DaemonStatusArgs>(rest),
        it.says("start"@, rest) ==> (it matches DaemonCommand::Start(args)
            && arguments_say(args, rest)),
        it.says("restart"@, rest) ==> (it matches DaemonCommand::Restart(args)
            && arguments_say(args, rest)),
        it.says("stop"@, rest) ==> (it matches DaemonCommand::Stop(args)
            && arguments_say(args, rest)),
        it.says("status"@, rest) ==> (it matches DaemonCommand::Status(args)
            && arguments_say(args, rest)),
        word != "start"@ && word != "restart"@ && word != "stop"@ && word != "status"@
            && word != "help"@ ==> DaemonCommand::verdict(word, rest) is Invalid,
        DaemonCommand::verdict("help"@, Seq::empty()) is Help,
        DaemonCommand::verdict("help"@, seq!["start"@]) is Help,
        DaemonCommand::verdict("help"@, seq!["restart"@]) is Help,
        DaemonCommand::verdict("help"@, seq!["stop"@]) is Help,
        DaemonCommand::verdict("help"@, seq!["status"@]) is Help,
        word != "start"@ && word != "restart"@ && word != "stop"@ && word != "status"@
            && word != "help"@ ==> DaemonCommand::verdict("help"@, seq![word]) is Invalid,
{
    reveal_strlit("help");
    reveal_strlit("restart");
    reveal_strlit("start");
    reveal_strlit("status");
    reveal_strlit("stop");
    assert("help"@.len() == 4);
    assert("restart"@.len() == 7);
    assert("start"@.len() == 5);
    assert("status"@.len() == 6);
    assert("stop"@.len() == 4);
    assert("help"@[0] == 'h');
    assert("stop"@[0] == 's');
}

/// Each word of [`ConfigCommand`] leads to its own command, with the arguments behind it; help is
/// given on
/// each of them, and no other word is known.
pub proof fn config_words_lead_to_their_commands(
    it: ConfigCommand,
    word: Seq<char>,
    rest: Seq<Seq<char>>,
)
    ensures
        ConfigCommand::verdict("reload"@, rest) == arguments_verdict::<()>(rest),
        it.says("reload"@, rest) ==> it is Reload,
        word != "reload"@ && word != "help"@ ==> ConfigCommand::verdict(word, rest) is Invalid,
        ConfigCommand::verdict("help"@, Seq::empty()) is Help,
        ConfigCommand::verdict("help"@, seq!["reload"@]) is Help,
        word != "reload"@ && word != "help"@
            ==> ConfigCommand::verdict("help"@, seq![word]) is Invalid,
{
    reveal_strlit("help");
    reveal_strlit("reload");
    assert("help"@.len() == 4);
    assert("reload"@.len() == 6);
}

/// Each word of [`RpcCommand`] leads to its own command, with the arguments behind it; help is
/// given on
/// each of them, and no other word is known.
pub proof fn rpc_words_lead_to_their_commands(
    it: RpcCommand,
    word: Seq<char>,
    rest: Seq<Seq<char>>,
)
    ensures
        RpcCommand::verdict("call"@, rest) == arguments_verdict::<RpcCallArgs>(rest),
        it.says("call"@, rest) ==> (it matches RpcCommand::Call(args) && arguments_say(args, rest)),
        word != "call"@ && word != "help"@ ==> RpcCommand::verdict(word, rest) is Invalid,
        RpcCommand::verdict("help"@, Seq::empty()) is Help,
        RpcCommand::verdict("help"@, seq!["call"@]) is Help,
        word != "call"@ && word != "help"@ ==> RpcCommand::verdict("help"@, seq![word]) is Invalid,
{
    reveal_strlit("call");
    reveal_strlit("help");
    assert("call"@.len() == 4);
    assert("help"@.len() == 4);
    assert("call"@[0] == 'c');
    assert("help"@[0] == 'h');
}

/// Each word of [`E2eCommand`] leads to its own command, with the arguments behind it; help is
/// given on
/// each of them, and no other word is known.
pub proof fn e2e_words_lead_to_their_commands(
    it: E2eCommand,
    word: Seq<char>,
    rest: Seq<Seq<char>>,
)
    ensures
        E2eCommand::verdict("smoke"@, rest) == arguments_verdict::<E2eSmokeArgs>(rest),
        it.says("smoke"@, rest) ==> (it matches E2eCommand::Smoke(args)
            && arguments_say(args, rest)),
        word != "smoke"@ && word != "help"@ ==> E2eCommand::verdict(word, rest) is Invalid,
        E2eCommand::verdict("help"@, Seq::empty()) is Help,
        E2eCommand::verdict("help"@, seq!["smoke"@]) is Help,
        word != "smoke"@ && word != "help"@ ==> E2eCommand::verdict("help"@, seq![word]) is Invalid,
{
    reveal_strlit("help");
    reveal_strlit("smoke");
    assert("help"@.len() == 4);
    assert("smoke"@.len() == 5);
}

/// Each word of [`OrchestratorRunsCommand`] leads to its own command, with the arguments behind
/// it; help is given on
/// each of them, and no other word is known.
pub proof fn orchestrator_runs_words_lead_to_their_commands(
    it: OrchestratorRunsCommand,
    word: Seq<char>,
    rest: Seq<Seq<char>>,
)
    ensures
        OrchestratorRunsCommand::verdict("list"@, rest) == arguments_verdict::<()>(rest),
        OrchestratorRunsCommand::verdict("get"@, rest) == arguments_verdict::<OrchestratorRunGetArgs>(rest),
        OrchestratorRunsCommand::verdict("diagnose"@, rest) == arguments_verdict::<OrchestratorRunDiagnoseArgs>(rest),
        it.says("list"@, rest) ==> it is List,
        it.says("get"@, rest) ==> (it matches OrchestratorRunsCommand::Get(args)
            && arguments_say(args, rest)),
        it.says("diagnose"@, rest) ==> (it matches OrchestratorRunsCommand::Diagnose(args)
            && arguments_say(args, rest)),
        word != "list"@ && word != "get"@ && word != "diagnose"@ && word != "help"@
            ==> OrchestratorRunsCommand::verdict(word, rest) is Invalid,
        OrchestratorRunsCommand::verdict("help"@, Seq::empty()) is Help,
        OrchestratorRunsCommand::verdict("help"@, seq!["list"@]) is Help,
        OrchestratorRunsCommand::verdict("help"@, seq!["get"@]) is Help,
        OrchestratorRunsCommand::verdict("help"@, seq!["diagnose"@]) is Help,
        word != "list"@ && word != "get"@ && word != "diagnose"@ && word != "help"@
            ==> OrchestratorRunsCommand::verdict("help"@, seq![word]) is Invalid,
{
    reveal_strlit("diagnose");
    reveal_strlit("get");
    reveal_strlit("help");
    reveal_strlit("list");
    assert("diagnose"@.len() == 8);
    assert("get"@.len() == 3);
    assert("help"@.len() == 4);
    assert("list"@.len() == 4);
    assert("help"@[0] == 'h');
    assert("list"@[0] == 'l');
}

/// Each word of [`OrchestratorEventsCommand`] leads to its own command, with the arguments behind
/// it; help is given on
/// each of them, and no other word is known.
pub proof fn orchestrator_events_words_lead_to_their_commands(
    it: OrchestratorEventsCommand,
    word: Seq<char>,
    rest: Seq<Seq<char>>,
)
    ensures
        OrchestratorEventsCommand::verdict("query"@, rest) == arguments_verdict::<OrchestratorEventsQueryArgs>(rest),
        it.says("query"@, rest) ==> (it matches OrchestratorEventsCommand::Query(args)
            && arguments_say(args, rest)),
        word != "query"@ && word != "help"@
            ==> OrchestratorEventsCommand::verdict(word, rest) is Invalid,
        OrchestratorEventsCommand::verdict("help"@, Seq::empty()) is Help,
        OrchestratorEventsCommand::verdict("help"@, seq!["query"@]) is Help,
        word != "query"@ && word != "help"@
            ==> OrchestratorEventsCommand::verdict("help"@, seq![word]) is Invalid,
{
    reveal_strlit("help");
    reveal_strlit("query");
    assert("help"@.len() == 4);
    assert("query"@.len() == 5);
}

/// Each word of [`OrchestratorReportsCommand`] leads to its own command, with the arguments
/// behind it; help is given on
/// each of them, and no other word is known.
pub proof fn orchestrator_reports_words_lead_to_their_commands(
    it: OrchestratorReportsCommand,
    word: Seq<char>,
    rest: Seq<Seq<char>>,
)
    ensures
        OrchestratorReportsCommand::verdict("query"@, rest) == arguments_verdict::<OrchestratorReportsQueryArgs>(rest),
        it.says("query"@, rest) ==> (it matches OrchestratorReportsCommand::Query(args)
            && arguments_say(args, rest)),
        word != "query"@ && word != "help"@
            ==> OrchestratorReportsCommand::verdict(word, rest) is Invalid,
        OrchestratorReportsCommand::verdict("help"@, Seq::empty()) is Help,
        OrchestratorReportsCommand::verdict("help"@, seq!["query"@]) is Help,
        word != "query"@ && word != "help"@
            ==> OrchestratorReportsCommand::verdict("help"@, seq![word]) is Invalid,
{
    reveal_strlit("help");
    reveal_strlit("query");
    assert("help"@.len() == 4);
    assert("query"@.len() == 5);
}

/// Each word of [`OrchestratorStatsCommand`] leads to its own command, with the arguments behind
/// it; help is given on
/// each of them, and no other word is known.
pub proof fn orchestrator_stats_words_lead_to_their_commands(
    it: OrchestratorStatsCommand,
    word: Seq<char>,
    rest: Seq<Seq<char>>,
)
    ensures
        OrchestratorStatsCommand::verdict("get"@, rest) == arguments_verdict::<()>(rest),
        it.says("get"@, rest) ==> it is Get,
        word != "get"@ && word != "help"@
            ==> OrchestratorStatsCommand::verdict(word, rest) is Invalid,
        OrchestratorStatsCommand::verdict("help"@, Seq::empty()) is Help,
        OrchestratorStatsCommand::verdict("help"@, seq!["get"@]) is Help,
        word != "get"@ && word != "help"@
            ==> OrchestratorStatsCommand::verdict("help"@, seq![word]) is Invalid,
{
    reveal_strlit("get");
    reveal_strlit("help");
    assert("get"@.len() == 3);
    assert("help"@.len() == 4);
}

/// Each word of [`OrchestratorThreadsCommand`] leads to its own command, with the arguments
/// behind it; help is given on
/// each of them, and no other word is known.
pub proof fn orchestrator_threads_words_lead_to_their_commands(
    it: OrchestratorThreadsCommand,
    word: Seq<char>,
    rest: Seq<Seq<char>>,
)
    ensures
        OrchestratorThreadsCommand::verdict("list"@, rest) == arguments_verdict::<()>(rest),
        OrchestratorThreadsCommand::verdict("get"@, rest) == arguments_verdict::<OrchestratorThreadGetArgs>(rest),
        OrchestratorThreadsCommand::verdict("resurrect"@, rest) == arguments_verdict::<OrchestratorThreadResurrectArgs>(rest),
        it.says("list"@, rest) ==> it is List,
        it.says("get"@, rest) ==> (it matches OrchestratorThreadsCommand::Get(args)
            && arguments_say(args, rest)),
        it.says("resurrect"@, rest) ==> (it matches OrchestratorThreadsCommand::Resurrect(args)
            && arguments_say(args, rest)),
        word != "list"@ && word != "get"@ && word != "resurrect"@ && word != "help"@
            ==> OrchestratorThreadsCommand::verdict(word, rest) is Invalid,
        OrchestratorThreadsCommand::verdict("help"@, Seq::empty()) is Help,
        OrchestratorThreadsCommand::verdict("help"@, seq!["list"@]) is Help,
        OrchestratorThreadsCommand::verdict("help"@, seq!["get"@]) is Help,
        OrchestratorThreadsCommand::verdict("help"@, seq!["resurrect"@]) is Help,
        word != "list"@ && word != "get"@ && word != "resurrect"@ && word != "help"@
            ==> OrchestratorThreadsCommand::verdict("help"@, seq![word]) is Invalid,
{
    reveal_strlit("get");
    reveal_strlit("help");
    reveal_strlit("list");
    reveal_strlit("resurrect");
    assert("get"@.len() == 3);
    assert("help"@.len() == 4);
    assert("list"@.len() == 4);
    assert("resurrect"@.len() == 9);
    assert("help"@[0] == 'h');
    assert("list"@[0] == 'l');
}

/// Each word of [`OrchestratorSubagentCommand`] leads to its own command, with the arguments
/// behind it; help is given on
/// each of them, and no other word is known.
pub proof fn orchestrator_subagent_words_lead_to_their_commands(
    it: OrchestratorSubagentCommand,
    word: Seq<char>,
    rest: Seq<Seq<char>>,
)
    ensures
        OrchestratorSubagentCommand::verdict("turn"@, rest) == arguments_verdict::<OrchestratorSubagentTurnArgs>(rest),
        it.says("turn"@, rest) ==> (it matches OrchestratorSubagentCommand::Turn(args)
            && arguments_say(args, rest)),
        word != "turn"@ && word != "help"@
            ==> OrchestratorSubagentCommand::verdict(word, rest) is Invalid,
        OrchestratorSubagentCommand::verdict("help"@, Seq::empty()) is Help,
        OrchestratorSubagentCommand::verdict("help"@, seq!["turn"@]) is Help,
        word != "turn"@ && word != "help"@
            ==> OrchestratorSubagentCommand::verdict("help"@, seq![word]) is Invalid,
{
    reveal_strlit("help");
    reveal_strlit("turn");
    assert("help"@.len() == 4);
    assert("turn"@.len() == 4);
    assert("help"@[0] == 'h');
    assert("turn"@[0] == 't');
}

/// Each word of [`OrchestratorCommand`] leads to its own command, with the arguments behind it;
/// help is given on
/// each of them, and no other word is known.
pub proof fn orchestrator_words_lead_to_their_commands(
    it: OrchestratorCommand,
    word: Seq<char>,
    rest: Seq<Seq<char>>,
)
    ensures
        OrchestratorCommand::verdict("turn"@, rest) == arguments_verdict::<OrchestratorTurnArgs>(rest),
        OrchestratorCommand::verdict("chat"@, rest) == arguments_verdict::<OrchestratorChatArgs>(rest),
        OrchestratorCommand::verdict("runs"@, rest) == group_verdict::<OrchestratorRunsCommand>(rest),
        OrchestratorCommand::verdict("events"@, rest) == group_verdict::<OrchestratorEventsCommand>(rest),
        OrchestratorCommand::verdict("reports"@, rest) == group_verdict::<OrchestratorReportsCommand>(rest),
        OrchestratorCommand::verdict("stats"@, rest) == group_verdict::<OrchestratorStatsCommand>(rest),
        OrchestratorCommand::verdict("threads"@, rest) == group_verdict::<OrchestratorThreadsCommand>(rest),
        OrchestratorCommand::verdict("subagent"@, rest) == group_verdict::<OrchestratorSubagentCommand>(rest),
        it.says("turn"@, rest) ==> (it matches OrchestratorCommand::Turn(args)
            && arguments_say(args, rest)),
        it.says("chat"@, rest) ==> (it matches OrchestratorCommand::Chat(args)
            && arguments_say(args, rest)),
        it.says("runs"@, rest) ==> (it matches OrchestratorCommand::Runs { command }
            && group_says(command, rest)),
        it.says("events"@, rest) ==> (it matches OrchestratorCommand::Events { command }
            && group_says(command, rest)),
        it.says("reports"@, rest) ==> (it matches OrchestratorCommand::Reports { command }
            && group_says(command, rest)),
        it.says("stats"@, rest) ==> (it matches OrchestratorCommand::Stats { command }
            && group_says(command, rest)),
        it.says("threads"@, rest) ==> (it matches OrchestratorCommand::Threads { command }
            && group_says(command, rest)),
        it.says("subagent"@, rest) ==> (it matches OrchestratorCommand::Subagent { command }
            && group_says(command, rest)),
        word != "turn"@ && word != "chat"@ && word != "runs"@ && word != "events"@
            && word != "reports"@ && word != "stats"@ && word != "threads"@ && word != "subagent"@
            && word != "help"@ ==> OrchestratorCommand::verdict(word, rest) is Invalid,
        OrchestratorCommand::verdict("help"@, Seq::empty()) is Help,
        OrchestratorCommand::verdict("help"@, seq!["turn"@]) is Help,
        OrchestratorCommand::verdict("help"@, seq!["chat"@]) is Help,
        OrchestratorCommand::verdict("help"@, seq!["runs"@]) is Help,
        OrchestratorCommand::verdict("help"@, seq!["events"@]) is Help,
        OrchestratorCommand::verdict("help"@, seq!["reports"@]) is Help,
        OrchestratorCommand::verdict("help"@, seq!["stats"@]) is Help,
        OrchestratorCommand::verdict("help"@, seq!["threads"@]) is Help,
        OrchestratorCommand::verdict("help"@, seq!["subagent"@]) is Help,
        word != "turn"@ && word != "chat"@ && word != "runs"@ && word != "events"@
            && word != "reports"@ && word != "stats"@ && word != "threads"@ && word != "subagent"@
            && word != "help"@ ==> OrchestratorCommand::verdict("help"@, seq![word]) is Invalid,
{
    reveal_strlit("chat");
    reveal_strlit("events");
    reveal_strlit("help");
    reveal_strlit("reports");
    reveal_strlit("runs");
    reveal_strlit("stats");
    reveal_strlit("subagent");
    reveal_strlit("threads");
    reveal_strlit("turn");
    assert("chat"@.len() == 4);
    assert("events"@.len() == 6);
    assert("help"@.len() == 4);
    assert("reports"@.len() == 7);
    assert("runs"@.len() == 4);
    assert("stats"@.len() == 5);
    assert("subagent"@.len() == 8);
    assert("threads"@.len() == 7);
    assert("turn"@.len() == 4);
    assert("chat"@[0] == 'c');
    assert("help"@[0] == 'h');
    assert("runs"@[0] == 'r');
    assert("turn"@[0] == 't');
    assert("reports"@[0] == 'r');
    assert("threads"@[0] == 't');
    assert(seq!["runs"@].drop_first() =~= Seq::empty());
    assert(seq!["events"@].drop_first() =~= Seq::empty());
    assert(seq!["reports"@].drop_first() =~= Seq::empty());
    assert(seq!["stats"@].drop_first() =~= Seq::empty());
    assert(seq!["threads"@].drop_first() =~= Seq::empty());
    assert(seq!["subagent"@].drop_first() =~= Seq::empty());
}

/// Each word of [`Command`] leads to its own command, with the arguments behind it; help is given
/// on
/// each of them, and no other word is known.
pub proof fn neuroctl_words_lead_to_their_commands(
    it: Command,
    word: Seq<char>,
    rest: Seq<Seq<char>>,
)
    ensures
        Command::verdict("install"@, rest) == arguments_verdict::<InstallArgs>(rest),
        Command::verdict("daemon"@, rest) == group_verdict::<DaemonCommand>(rest),
        Command::verdict("health"@, rest) == arguments_verdict::<()>(rest),
        Command::verdict("config"@, rest) == group_verdict::<ConfigCommand>(rest),
        Command::verdict("rpc"@, rest) == group_verdict::<RpcCommand>(rest),
        Command::verdict("e2e"@, rest) == group_verdict::<E2eCommand>(rest),
        Command::verdict("orchestrator"@, rest) == group_verdict::<OrchestratorCommand>(rest),
        it.says("install"@, rest) ==> (it matches Command::Install(args)
            && arguments_say(args, rest)),
        it.says("daemon"@, rest) ==> (it matches Command::Daemon { command }
            && group_says(command, rest)),
        it.says("health"@, rest) ==> it is Health,
        it.says("config"@, rest) ==> (it matches Command::Config { command }
            && group_says(command, rest)),
        it.says("rpc"@, rest) ==> (it matches Command::Rpc { command }
            && group_says(command, rest)),
        it.says("e2e"@, rest) ==> (it matches Command::E2e { command }
            && group_says(command, rest)),
        it.says("orchestrator"@, rest) ==> (it matches Command::Orchestrator { command }
            && group_says(command, rest)),
        word != "install"@ && word != "daemon"@ && word != "health"@ && word != "config"@
            && word != "rpc"@ && word != "e2e"@ && word != "orchestrator"@ && word != "help"@
            ==> Command::verdict(word, rest) is Invalid,
        Command::verdict("help"@, Seq::empty()) is Help,
        Command::verdict("help"@, seq!["install"@]) is Help,
        Command::verdict("help"@, seq!["daemon"@]) is Help,
        Command::verdict("help"@, seq!["health"@]) is Help,
        Command::verdict("help"@, seq!["config"@]) is Help,
        Command::verdict("help"@, seq!["rpc"@]) is Help,
        Command::verdict("help"@, seq!["e2e"@]) is Help,
        Command::verdict("help"@, seq!["orchestrator"@]) is Help,
        word != "install"@ && word != "daemon"@ && word != "health"@ && word != "config"@
            && word != "rpc"@ && word != "e2e"@ && word != "orchestrator"@ && word != "help"@
            ==> Command::verdict("help"@, seq![word]) is Invalid,
{
    reveal_strlit("config");
    reveal_strlit("daemon");
    reveal_strlit("e2e");
    reveal_strlit("health");
    reveal_strlit("help");
    reveal_strlit("install");
    reveal_strlit("orchestrator");
    reveal_strlit("rpc");
    assert("config"@.len() == 6);
    assert("daemon"@.len() == 6);
    assert("e2e"@.len() == 3);
    assert("health"@.len() == 6);
    assert("help"@.len() == 4);
    assert("install"@.len() == 7);
    assert("orchestrator"@.len() == 12);
    assert("rpc"@.len() == 3);
    assert("config"@[0] == 'c');
    assert("daemon"@[0] == 'd');
    assert("health"@[0] == 'h');
    assert("e2e"@[0] == 'e');
    assert("rpc"@[0] == 'r');
    assert(seq!["daemon"@].drop_first() =~= Seq::empty());
    assert(seq!["config"@].drop_first() =~= Seq::empty());
    assert(seq!["rpc"@].drop_first() =~= Seq::empty());
    assert(seq!["e2e"@].drop_first() =~= Seq::empty());
    assert(seq!["orchestrator"@].drop_first() =~= Seq::empty());
}

} // verus!

//! Agents: what they are granted, how they are configured, and what they report.

use vstd::prelude::*;
use crate::error::CapabilityRef;
use crate::lists::{lemma_filter_none, lemma_filter_step};
use crate::secrets::SecretRef;
use crate::task::{Artifact, Checkpoint, TaskId, TaskOutput};
use crate::text::{
    cat, chars_of, copy_list, copy_opt, decimal, decimal_reads_back, lemma_decimal_digits,
    lemma_trimmed_same, parse_u64, string_of, to_decimal, trim, trimmed, unsigned, white,
};
use crate::time::{Duration, Timestamp};
use crate::tool::ToolCall;

verus! {

pub type AgentId = String;

/// Capabilities granted to an agent — explicit, auditable, revocable.
#[derive(Debug, Clone)]
pub struct AgentCapabilities {
    pub skills: Vec<String>,
    pub mcp_servers: Vec<String>,
    pub a2a_peers: Vec<AgentId>,
    /// Agents this agent may request collaboration from (spoke-to-spoke).
    pub can_request: Vec<AgentId>,
    pub secrets: Vec<SecretRef>,
    pub memory_partitions: Vec<String>,
    pub filesystem_roots: Vec<String>,
    pub network_policy: Option<String>,
}

/// Agent execution mode.
#[derive(Debug, Clone, Copy, PartialEq, Eq, Structural)]
pub enum AgentMode {
    /// Run in the same process as the orchestrator.
    Inproc,
    /// Run as a child process.
    Subprocess,
    /// Run in an OCI container.
    Container,
}

/// Configuration for a single sub-agent, loaded from TOML.
#[derive(Debug, Clone)]
pub struct AgentConfig {
    pub id: AgentId,
    pub mode: AgentMode,
    pub image: Option<String>,
    pub models: AgentModelConfig,
    pub capabilities: AgentCapabilities,
    pub health: AgentHealthConfig,
    pub system_prompt: String,
    pub max_iterations: u32,
}

#[derive(Debug, Clone)]
pub struct AgentModelConfig {
    pub planner: Option<String>,
    pub executor: Option<String>,
    pub verifier: Option<String>,
}

#[derive(Debug, Clone, Copy, PartialEq, Eq, Structural)]
pub struct AgentHealthConfig {
    pub heartbeat_interval: Duration,
    pub watchdog_timeout: Duration,
    pub circuit_breaker: Option<CircuitBreakerConfig>,
}

#[derive(Debug, Clone, Copy, PartialEq, Eq, Structural)]
pub struct CircuitBreakerConfig {
    pub failures: u32,
    pub window: Duration,
}

/// Agent execution state machine — tracks each task's lifecycle within an agent.
#[derive(Debug, Clone)]
pub enum TaskExecutionState {
    /// Runtime being initialized: loading skills, connecting MCP, building rig Agent.
    Initializing { task_id: TaskId },

    /// rig Agent is reasoning, preparing the next chat() call.
    Thinking {
        conversation_len: usize,
        iteration: u32,
    },

    /// Agent produced tool calls; executing them.
    Acting {
        pending_calls: Vec<ToolCall>,
        completed_count: usize,
    },

    /// Agent needs external input. Task suspended with checkpoint.
    WaitingForInput {
        question: String,
        checkpoint: Checkpoint,
    },

    /// Agent is waiting for a collaboration request to complete.
    WaitingForCollaboration {
        thread_id: String,
        target_agent: String,
        collaboration_call_id: String,
        checkpoint: Checkpoint,
    },

    /// Agent produced a candidate output — self-assessment or verifier check.
    Evaluating { candidate_output: Artifact },

    /// Task completed successfully.
    Completed { output: TaskOutput },

    /// Task failed.
    Failed {
        error: String,
        partial_output: Option<TaskOutput>,
    },

    /// Task suspended (long-running, crash recovery, or resource pressure).
    Suspended {
        checkpoint: Checkpoint,
        reason: String,
    },
}

/// Report from a sub-agent to the orchestrator.
#[derive(Debug, Clone)]
pub enum SubAgentReport {
    Progress {
        task_id: TaskId,
        thread_id: Option<String>,
        step: u32,
        description: String,
        artifacts_so_far: Vec<Artifact>,
    },
    InputRequired {
        task_id: TaskId,
        thread_id: Option<String>,
        question: String,
        context: String,
        suggested_options: Vec<String>,
    },
    ToolFailure {
        task_id: TaskId,
        thread_id: Option<String>,
        tool_id: String,
        error: String,
        retry_eligible: bool,
        attempted_count: u32,
    },
    PolicyDenied {
        task_id: TaskId,
        thread_id: Option<String>,
        action: String,
        policy_code: String,
        capability_needed: CapabilityRef,
    },
    Stuck {
        task_id: TaskId,
        thread_id: Option<String>,
        reason: String,
        partial_result: Option<Artifact>,
    },
    Completed {
        task_id: TaskId,
        thread_id: Option<String>,
        artifacts: Vec<Artifact>,
        summary: String,
    },
    Failed {
        task_id: TaskId,
        thread_id: Option<String>,
        error: String,
        partial_result: Option<Artifact>,
    },
}

/// Orchestrator's response to a sub-agent report.
#[derive(Debug, Clone)]
pub enum RemediationAction {
    Retry {
        max_attempts: u32,
        backoff_ms: u64,
    },
    Clarify {
        additional_context: String,
    },
    GrantTemporary {
        capability: CapabilityRef,
        scope: TaskId,
    },
    Reassign {
        new_agent_id: AgentId,
        reason: String,
    },
    EscalateToUser {
        question: String,
        channel: String,
    },
    Abort {
        reason: String,
    },
}

/// Tracks circuit breaker state for an agent.
#[derive(Debug)]
pub struct CircuitBreakerState {
    pub failure_timestamps: Vec<Timestamp>,
    pub is_open: bool,
    pub config: CircuitBreakerConfig,
}

/// What is granted to an agent.
#[verifier::ext_equal]
pub struct CapabilitiesView {
    pub skills: Seq<String>,
    pub mcp_servers: Seq<String>,
    pub a2a_peers: Seq<String>,
    pub can_request: Seq<String>,
    pub secrets: Seq<String>,
    pub memory_partitions: Seq<String>,
    pub filesystem_roots: Seq<String>,
    pub network_policy: Option<String>,
}

impl View for AgentCapabilities {
    type V = CapabilitiesView;

    open spec fn view(&self) -> CapabilitiesView {
        CapabilitiesView {
            skills: self.skills@,
            mcp_servers: self.mcp_servers@,
            a2a_peers: self.a2a_peers@,
            can_request: self.can_request@,
            secrets: self.secrets@,
            memory_partitions: self.memory_partitions@,
            filesystem_roots: self.filesystem_roots@,
            network_policy: self.network_policy,
        }
    }
}

impl Default for AgentCapabilities {
    /// Nothing is granted.
    fn default() -> (r: AgentCapabilities)
        ensures
            r@ == (CapabilitiesView {
                skills: Seq::empty(),
                mcp_servers: Seq::empty(),
                a2a_peers: Seq::empty(),
                can_request: Seq::empty(),
                secrets: Seq::empty(),
                memory_partitions: Seq::empty(),
                filesystem_roots: Seq::empty(),
                network_policy: None,
            }),
    {
        AgentCapabilities {
            skills: Vec::new(),
            mcp_servers: Vec::new(),
            a2a_peers: Vec::new(),
            can_request: Vec::new(),
            secrets: Vec::new(),
            memory_partitions: Vec::new(),
            filesystem_roots: Vec::new(),
            network_policy: None,
        }
    }
}

impl AgentCapabilities {
    /// A copy of what is granted.
    pub fn copy(&self) -> (r: AgentCapabilities)
        ensures
            r@ == self@,
    {
        AgentCapabilities {
            skills: copy_list(&self.skills),
            mcp_servers: copy_list(&self.mcp_servers),
            a2a_peers: copy_list(&self.a2a_peers),
            can_request: copy_list(&self.can_request),
            secrets: copy_list(&self.secrets),
            memory_partitions: copy_list(&self.memory_partitions),
            filesystem_roots: copy_list(&self.filesystem_roots),
            network_policy: copy_opt(&self.network_policy),
        }
    }
}

impl Default for AgentModelConfig {
    /// No model is chosen.
    fn default() -> (r: AgentModelConfig)
        ensures
            r == (AgentModelConfig { planner: None, executor: None, verifier: None }),
    {
        AgentModelConfig { planner: None, executor: None, verifier: None }
    }
}

impl AgentModelConfig {
    /// A copy of the choice.
    pub fn copy(&self) -> (r: AgentModelConfig)
        ensures
            r == *self,
    {
        AgentModelConfig {
            planner: copy_opt(&self.planner),
            executor: copy_opt(&self.executor),
            verifier: copy_opt(&self.verifier),
        }
    }
}

impl Default for AgentHealthConfig {
    /// A sign of life each half minute, a minute until an agent counts as lost, and no breaker.
    fn default() -> (r: AgentHealthConfig)
        ensures
            r == (AgentHealthConfig {
                heartbeat_interval: Duration::from_secs(30),
                watchdog_timeout: Duration::from_secs(60),
                circuit_breaker: None,
            }),
    {
        AgentHealthConfig {
            heartbeat_interval: Duration::from_secs(30),
            watchdog_timeout: Duration::from_secs(60),
            circuit_breaker: None,
        }
    }
}

// ---- lengths of time in configuration files ----------------------------------------------

/// The number of seconds that a text such as `30s`, `10m`, `2h` or `45` stands for.
pub open spec fn duration_secs(s: Seq<char>) -> Option<nat> {
    let t = trimmed(s);
    if t.len() > 0 && t.last() == 's' {
        unsigned(t.drop_last(), 0x1_0000_0000_0000_0000)
    } else if t.len() > 0 && t.last() == 'm' {
        match unsigned(t.drop_last(), 0x1_0000_0000_0000_0000) {
            Some(n) => Some(n * 60),
            None => None,
        }
    } else if t.len() > 0 && t.last() == 'h' {
        match unsigned(t.drop_last(), 0x1_0000_0000_0000_0000) {
            Some(n) => Some(n * 3600),
            None => None,
        }
    } else {
        unsigned(t, 0x1_0000_0000_0000_0000)
    }
}

/// The length of time that a text such as `30s`, `10m`, `2h` or `45` stands for.
pub fn parse_duration(s: &str) -> (r: Option<Duration>)
    requires
        duration_secs(s@) matches Some(n) ==> n <= u64::MAX,
    ensures
        match r {
            Some(d) => d.nanos == 0 && duration_secs(s@) == Some(d.secs as nat),
            None => duration_secs(s@) is None,
        },
{
    let t = trim(s);
    let chars = chars_of(t.as_str());
    if chars.len() == 0 {
        return match parse_u64(t.as_str()) {
            Some(n) => Some(Duration::from_secs(n)),
            None => None,
        };
    }
    let last: char = chars[chars.len() - 1];
    let head = string_of(&chars, 0, chars.len() - 1);
    assert(head@ =~= t@.drop_last());
    if last == 's' {
        match parse_u64(head.as_str()) {
            Some(n) => Some(Duration::from_secs(n)),
            None => None,
        }
    } else if last == 'm' {
        match parse_u64(head.as_str()) {
            Some(n) => Some(Duration::from_secs(n * 60)),
            None => None,
        }
    } else if last == 'h' {
        match parse_u64(head.as_str()) {
            Some(n) => Some(Duration::from_secs(n * 3600)),
            None => None,
        }
    } else {
        match parse_u64(t.as_str()) {
            Some(n) => Some(Duration::from_secs(n)),
            None => None,
        }
    }
}

/// How a length of time is written down: in minutes where there are whole ones, else in seconds.
pub open spec fn duration_text(d: Duration) -> Seq<char> {
    if d.secs % 60 == 0 && d.secs >= 60 {
        decimal((d.secs / 60) as nat) + "m"@
    } else {
        decimal(d.secs as nat) + "s"@
    }
}

/// How a length of time is written down.
pub fn format_duration(d: Duration) -> (r: String)
    ensures
        r@ == duration_text(d),
{
    if d.secs % 60 == 0 && d.secs >= 60 {
        cat(to_decimal(d.secs / 60).as_str(), "m")
    } else {
        cat(to_decimal(d.secs).as_str(), "s")
    }
}

proof fn lemma_marked_decimal(n: nat, mark: Seq<char>, c: char)
    requires
        n < 0x1_0000_0000_0000_0000,
        mark == seq![c],
        !white(c),
    ensures
        trimmed(decimal(n) + mark) == decimal(n) + mark,
        (decimal(n) + mark).last() == c,
        unsigned((decimal(n) + mark).drop_last(), 0x1_0000_0000_0000_0000) == Some(n),
{
    let s = decimal(n) + mark;
    lemma_decimal_digits(n);
    assert(s[0] == decimal(n)[0]);
    lemma_trimmed_same(s);
    assert(s.drop_last() =~= decimal(n));
    decimal_reads_back(n);
    assert(decimal(n)[0] as u32 != 43);
}

/// Reading a written length of time gives back its whole seconds.
pub proof fn written_durations_read_back(d: Duration)
    ensures
        duration_secs(duration_text(d)) == Some(d.secs as nat),
{
    reveal_strlit("m");
    reveal_strlit("s");
    assert("m"@ =~= seq!['m']);
    assert("s"@ =~= seq!['s']);
    if d.secs % 60 == 0 && d.secs >= 60 {
        lemma_marked_decimal((d.secs / 60) as nat, "m"@, 'm');
    } else {
        lemma_marked_decimal(d.secs as nat, "s"@, 's');
    }
}

// ---- the circuit breaker -----------------------------------------------------------------

/// How long a failure counts, in nanoseconds: the configured window, or ten minutes where that is
/// longer than a calendar can measure.
pub open spec fn window_ns(config: CircuitBreakerConfig) -> int {
    let w = config.window;
    if w.secs > 9_223_372_036_854_775 || (w.secs == 9_223_372_036_854_775 && w.nanos
        > 807_000_000) {
        600_000_000_000
    } else {
        w.ns()
    }
}

/// Which failures still count.
pub open spec fn counts(now: Timestamp, window: int) -> spec_fn(Timestamp) -> bool {
    |t: Timestamp| now.ns() - t.ns() < window
}

impl CircuitBreakerState {
    /// The breaker is closed and no failure is known.
    pub fn new(config: CircuitBreakerConfig) -> (r: CircuitBreakerState)
        ensures
            r.failure_timestamps@ == Seq::<Timestamp>::empty(),
            !r.is_open,
            r.config == config,
    {
        CircuitBreakerState { failure_timestamps: Vec::new(), is_open: false, config }
    }

    /// Adds a failure to those that still count. Enough of them open the breaker.
    pub fn record_failure(&mut self, now: Timestamp)
        ensures
            final(self).config == old(self).config,
            final(self).failure_timestamps@ == old(self).failure_timestamps@.filter(
                counts(now, window_ns(old(self).config)),
            ).push(now),
            final(self).is_open == (old(self).is_open || final(self).failure_timestamps@.len()
                >= old(self).config.failures),
    {
        let w = self.config.window;
        let window: i128 = if w.secs > 9_223_372_036_854_775 || (w.secs == 9_223_372_036_854_775
            && w.nanos > 807_000_000) {
            600_000_000_000
        } else {
            w.as_nanos()
        };
        let ghost p = counts(now, window_ns(self.config));
        let ghost all = self.failure_timestamps@;
        let mut kept: Vec<Timestamp> = Vec::new();
        let mut i: usize = 0;
        proof {
            lemma_filter_none(all, p);
        }
        while i < self.failure_timestamps.len()
            invariant
                i <= self.failure_timestamps@.len(),
                all == self.failure_timestamps@,
                window == window_ns(self.config),
                p == counts(now, window as int),
                *self == *old(self),
                kept@ == all.take(i as int).filter(p),
            decreases self.failure_timestamps@.len() - i,
        {
            proof {
                lemma_filter_step(all, i as int, p);
            }
            let t = self.failure_timestamps[i];
            if now.as_nanos() - t.as_nanos() < window {
                kept.push(t);
            }
            i = i + 1;
        }
        assert(all.take(i as int) =~= all);
        kept.push(now);
        self.failure_timestamps = kept;
        if self.failure_timestamps.len() >= self.config.failures as usize {
            self.is_open = true;
        }
    }

    pub fn is_open(&self) -> (r: bool)
        ensures
            r == self.is_open,
    {
        self.is_open
    }

    /// Closes the breaker and forgets all failures.
    pub fn reset(&mut self)
        ensures
            final(self).failure_timestamps@ == Seq::<Timestamp>::empty(),
            !final(self).is_open,
            final(self).config == old(self).config,
    {
        self.failure_timestamps = Vec::new();
        self.is_open = false;
    }
}

/// Once the breaker is open, no failure closes it; and each failure that is recorded counts.
pub proof fn open_breakers_stay_open(
    before: CircuitBreakerState,
    after: CircuitBreakerState,
    now: Timestamp,
)
    requires
        after.is_open == (before.is_open || after.failure_timestamps@.len()
            >= before.config.failures),
        after.failure_timestamps@ == before.failure_timestamps@.filter(
            counts(now, window_ns(before.config)),
        ).push(now),
    ensures
        before.is_open ==> after.is_open,
        before.config.failures <= 1 ==> after.is_open,
{
}

/// A number of seconds, minutes or hours is read with its unit; without one it is seconds.
pub proof fn durations_are_read_by_their_unit(n: nat)
    requires
        n < 0x1_0000_0000_0000_0000,
    ensures
        duration_secs(decimal(n)) == Some(n),
        duration_secs(decimal(n) + seq!['s']) == Some(n),
        duration_secs(decimal(n) + seq!['m']) == Some(n * 60),
        duration_secs(decimal(n) + seq!['h']) == Some(n * 3600),
{
    crate::text::lemma_decimal_digits(n);
    crate::text::numbers_are_read_from_digits(decimal(n), n, 0x1_0000_0000_0000_0000);
    let digits = decimal(n);
    crate::text::lemma_trimmed_same(digits);
    let s = digits + seq!['s'];
    let m = digits + seq!['m'];
    let h = digits + seq!['h'];
    crate::text::lemma_trimmed_same(s);
    crate::text::lemma_trimmed_same(m);
    crate::text::lemma_trimmed_same(h);
    assert(s.drop_last() =~= digits);
    assert(m.drop_last() =~= digits);
    assert(h.drop_last() =~= digits);
}

/// What is white around a duration does not matter, and what is no number before its unit is no
/// duration.
pub proof fn other_texts_are_no_durations(s: Seq<char>)
    ensures
        trimmed(s).len() > 0 && trimmed(trimmed(s)) == trimmed(s) ==> duration_secs(s)
            == duration_secs(trimmed(s)),
        trimmed(s).len() == 0 ==> duration_secs(s) is None,
        duration_secs(s) is Some ==> trimmed(s).last() == 's' || trimmed(s).last() == 'm' || trimmed(
            s,
        ).last() == 'h' || 48 <= trimmed(s).last() as u32 <= 57,
        forall|i: int|
            0 < i < trimmed(s).len() - 1 && !(48 <= (#[trigger] trimmed(s)[i]) as u32 <= 57)
                ==> duration_secs(s) is None,
{
    let t = trimmed(s);
    let limit: int = 0x1_0000_0000_0000_0000;
    crate::text::numbers_are_read_from_digits(t, 0, limit);
    if t.len() > 0 {
        let front = t.drop_last();
        crate::text::numbers_are_read_from_digits(front, 0, limit);
        assert forall|i: int|
            0 < i < t.len() - 1 && !(48 <= (#[trigger] trimmed(s)[i]) as u32 <= 57) implies duration_secs(
            s,
        ) is None by {
            assert(front[i] == t[i]);
        }
        if t.len() == 1 && t[0] == '+' {
            assert(t =~= seq!['+']);
        }
    }
}

/// A duration of whole minutes is written in minutes, and any other in seconds.
pub proof fn whole_minutes_are_written_so(d: Duration)
    ensures
        d.secs >= 60 && d.secs % 60 == 0 ==> duration_text(d) == decimal((d.secs / 60) as nat)
            + seq!['m'],
        d.secs < 60 || d.secs % 60 != 0 ==> duration_text(d) == decimal(d.secs as nat) + seq!['s'],
{
    reveal_strlit("m");
    reveal_strlit("s");
    assert("m"@ =~= seq!['m']);
    assert("s"@ =~= seq!['s']);
}

/// A failure counts while less time than the window has gone by since: no sooner is it forgotten and
/// no longer is it kept. The failure that is recorded counts always.
pub proof fn failures_count_within_the_window(
    config: CircuitBreakerConfig,
    earlier: Seq<Timestamp>,
    now: Timestamp,
    t: Timestamp,
)
    requires
        config.window.secs < 9_000_000_000_000_000,
        config.window.nanos < 1_000_000_000,
    ensures
        ({
            let after = earlier.filter(counts(now, window_ns(config))).push(now);
            let age = (now.secs - t.secs) * 1_000_000_000 + (now.nanos - t.nanos);
            let window = config.window.secs * 1_000_000_000 + config.window.nanos;
            &&& after.last() == now
            &&& earlier.contains(t) && age < window ==> after.contains(t)
            &&& age >= window && t != now ==> !after.contains(t)
            &&& after.contains(t) && t != now ==> earlier.contains(t)
        }),
{
    let p = counts(now, window_ns(config));
    let kept = earlier.filter(p);
    let after = kept.push(now);
    let age = (now.secs - t.secs) * 1_000_000_000 + (now.nanos - t.nanos);
    assert(now.ns() - t.ns() == age);
    if earlier.contains(t) && p(t) {
        let k = choose|k: int| 0 <= k < earlier.len() && earlier[k] == t;
        earlier.lemma_filter_contains(p, k);
        let i = choose|i: int| 0 <= i < kept.len() && kept[i] == t;
        assert(after[i] == t);
    }
    if after.contains(t) && t != now {
        let i = choose|i: int| 0 <= i < after.len() && after[i] == t;
        assert(kept[i] == t);
        assert(kept.contains(t));
        earlier.lemma_filter_pred(p, i);
        earlier.lemma_filter_contains_rev(p, t);
    }
}

/// Where the window is too long to be told, it is ten minutes.
pub proof fn endless_windows_are_ten_minutes(config: CircuitBreakerConfig)
    ensures
        config.window.secs > 9_223_372_036_854_775 ==> window_ns(config) == 600 * 1_000_000_000,
        config.window.secs < 9_223_372_036_854_775 ==> window_ns(config) == config.window.secs
            * 1_000_000_000 + config.window.nanos,
{
}

/// Capabilities that are told alike allow the same.
pub proof fn capabilities_are_told_whole(a: AgentCapabilities, b: AgentCapabilities)
    requires
        a@ == b@,
    ensures
        a.skills@ == b.skills@,
        a.mcp_servers@ == b.mcp_servers@,
        a.a2a_peers@ == b.a2a_peers@,
        a.can_request@ == b.can_request@,
        a.secrets@ == b.secrets@,
        a.memory_partitions@ == b.memory_partitions@,
        a.filesystem_roots@ == b.filesystem_roots@,
        a.network_policy == b.network_policy,
{
}

} // verus!

//! What can go wrong, and how it is said.

use vstd::prelude::*;
use crate::agent::AgentId;
use crate::secrets::SecretRef;
use crate::task::TaskId;
use crate::text::{cat, cat3, decimal, to_decimal};
use crate::time::{id_text, id_to_text, Duration};

verus! {

pub type CapabilityRef = String;

#[derive(Debug)]
pub enum NeuromancerError {
    Agent(AgentError),
    Llm(LlmError),
    Tool(ToolError),
    Policy(PolicyError),
    Infra(InfraError),
}

#[derive(Debug)]
pub enum AgentError {
    MaxIterationsExceeded { task_id: TaskId, iterations: u32 },
    InvalidToolCall { tool_id: String, reason: String },
    ContextOverflow { budget: u32, used: u32 },
    CheckpointCorrupted { task_id: TaskId },
    Timeout { task_id: TaskId, elapsed: Duration },
}

#[derive(Debug)]
pub enum LlmError {
    ProviderUnavailable { provider: String, status: u16 },
    RateLimited { provider: String, retry_after: Duration },
    InvalidResponse { reason: String },
    ContentFiltered { reason: String },
}

#[derive(Debug)]
pub enum ToolError {
    NotFound { tool_id: String },
    ExecutionFailed { tool_id: String, message: String },
    Timeout { tool_id: String, elapsed: Duration },
    McpServerDown { server_id: String },
    CapabilityDenied { agent_id: AgentId, capability: String },
}

#[derive(Debug)]
pub enum PolicyError {
    CapabilityDenied { agent_id: AgentId, capability: CapabilityRef },
    SecretAccessDenied { agent_id: AgentId, secret_ref: SecretRef },
    PartitionAccessDenied { agent_id: AgentId, partition: String },
    HeuristicBlocked { pattern: String, description: String },
}

#[derive(Debug)]
pub enum InfraError {
    Database(String),
    Io(String),
    Config(String),
    ContainerRuntime(String),
}

/// How a length of time is shown for debugging: `1.5s`, `25ms`.
pub uninterp spec fn elapsed_text(secs: u64, nanos: u32) -> Seq<char>;

/// The `Debug` form of `std::time::Duration`: it depends on the length alone.
#[verifier::external_body]
fn show_elapsed(secs: u64, nanos: u32) -> (r: String)
    requires
        nanos < 1_000_000_000,
    ensures
        r@ == elapsed_text(secs, nanos),
{
    format!("{:?}", std::time::Duration::new(secs, nanos))
}

/// What an elapsed time is said to be. A fraction that is no proper one counts as none.
pub open spec fn elapsed_said(d: Duration) -> Seq<char> {
    elapsed_text(
        d.secs,
        if d.nanos < 1_000_000_000 {
            d.nanos
        } else {
            0
        },
    )
}

fn say_elapsed(d: Duration) -> (r: String)
    ensures
        r@ == elapsed_said(d),
{
    let nanos: u32 = if d.nanos < 1_000_000_000 {
        d.nanos
    } else {
        0
    };
    show_elapsed(d.secs, nanos)
}

impl AgentError {
    /// What is said of an agent's failure.
    pub open spec fn said(self) -> Seq<char> {
        match self {
            AgentError::MaxIterationsExceeded { task_id, iterations } =>
                "max iterations exceeded for task "@ + id_text(task_id) + ": "@ + decimal(
                iterations as nat,
            ) + " iterations"@,
            AgentError::InvalidToolCall { tool_id, reason } => "invalid tool call to "@ + tool_id@
                + ": "@ + reason@,
            AgentError::ContextOverflow { budget, used } => "context overflow: budget="@ + decimal(
                budget as nat,
            ) + ", used="@ + decimal(used as nat),
            AgentError::CheckpointCorrupted { task_id } => "checkpoint corrupted for task "@
                + id_text(task_id),
            AgentError::Timeout { task_id, elapsed } => "timeout for task "@ + id_text(task_id)
                + " after "@ + elapsed_said(elapsed),
        }
    }

    /// What is said of an agent's failure.
    pub fn to_text(&self) -> (r: String)
        ensures
            r@ == self.said(),
    {
        match self {
            AgentError::MaxIterationsExceeded { task_id, iterations } => {
                let mut text = cat(
                    "max iterations exceeded for task ",
                    id_to_text(*task_id).as_str(),
                );
                text.append(": ");
                text.append(to_decimal(*iterations as u64).as_str());
                text.append(" iterations");
                text
            },
            AgentError::InvalidToolCall { tool_id, reason } => {
                let mut text = cat3("invalid tool call to ", tool_id.as_str(), ": ");
                text.append(reason.as_str());
                text
            },
            AgentError::ContextOverflow { budget, used } => {
                let mut text = cat(
                    "context overflow: budget=",
                    to_decimal(*budget as u64).as_str(),
                );
                text.append(", used=");
                text.append(to_decimal(*used as u64).as_str());
                text
            },
            AgentError::CheckpointCorrupted { task_id } => cat(
                "checkpoint corrupted for task ",
                id_to_text(*task_id).as_str(),
            ),
            AgentError::Timeout { task_id, elapsed } => {
                let mut text = cat("timeout for task ", id_to_text(*task_id).as_str());
                text.append(" after ");
                text.append(say_elapsed(*elapsed).as_str());
                text
            },
        }
    }
}

impl LlmError {
    /// What is said of a model's failure.
    pub open spec fn said(self) -> Seq<char> {
        match self {
            LlmError::ProviderUnavailable { provider, status } => "provider "@ + provider@
                + " unavailable (status "@ + decimal(status as nat) + ")"@,
            LlmError::RateLimited { provider, retry_after } => "rate limited by "@ + provider@
                + ", retry after "@ + elapsed_said(retry_after),
            LlmError::InvalidResponse { reason } => "invalid LLM response: "@ + reason@,
            LlmError::ContentFiltered { reason } => "content filtered: "@ + reason@,
        }
    }

    /// What is said of a model's failure.
    pub fn to_text(&self) -> (r: String)
        ensures
            r@ == self.said(),
    {
        match self {
            LlmError::ProviderUnavailable { provider, status } => {
                let mut text = cat3("provider ", provider.as_str(), " unavailable (status ");
                text.append(to_decimal(*status as u64).as_str());
                text.append(")");
                text
            },
            LlmError::RateLimited { provider, retry_after } => {
                let mut text = cat3("rate limited by ", provider.as_str(), ", retry after ");
                text.append(say_elapsed(*retry_after).as_str());
                text
            },
            LlmError::InvalidResponse { reason } => cat("invalid LLM response: ", reason.as_str()),
            LlmError::ContentFiltered { reason } => cat("content filtered: ", reason.as_str()),
        }
    }
}

impl ToolError {
    /// What is said of a tool's failure.
    pub open spec fn said(self) -> Seq<char> {
        match self {
            ToolError::NotFound { tool_id } => "tool not found: "@ + tool_id@,
            ToolError::ExecutionFailed { tool_id, message } => "tool "@ + tool_id@
                + " execution failed: "@ + message@,
            ToolError::Timeout { tool_id, elapsed } => "tool "@ + tool_id@ + " timed out after "@
                + elapsed_said(elapsed),
            ToolError::McpServerDown { server_id } => "MCP server down: "@ + server_id@,
            ToolError::CapabilityDenied { agent_id, capability } =>
                "capability denied for agent "@ + agent_id@ + ": "@ + capability@,
        }
    }

    /// What is said of a tool's failure.
    pub fn to_text(&self) -> (r: String)
        ensures
            r@ == self.said(),
    {
        match self {
            ToolError::NotFound { tool_id } => cat("tool not found: ", tool_id.as_str()),
            ToolError::ExecutionFailed { tool_id, message } => {
                let mut text = cat3("tool ", tool_id.as_str(), " execution failed: ");
                text.append(message.as_str());
                text
            },
            ToolError::Timeout { tool_id, elapsed } => {
                let mut text = cat3("tool ", tool_id.as_str(), " timed out after ");
                text.append(say_elapsed(*elapsed).as_str());
                text
            },
            ToolError::McpServerDown { server_id } => cat("MCP server down: ", server_id.as_str()),
            ToolError::CapabilityDenied { agent_id, capability } => {
                let mut text = cat3("capability denied for agent ", agent_id.as_str(), ": ");
                text.append(capability.as_str());
                text
            },
        }
    }
}

impl PolicyError {
    /// What is said of something that policy forbids.
    pub open spec fn said(self) -> Seq<char> {
        match self {
            PolicyError::CapabilityDenied { agent_id, capability } =>
                "capability denied for agent "@ + agent_id@ + ": "@ + capability@,
            PolicyError::SecretAccessDenied { agent_id, secret_ref } =>
                "secret access denied for agent "@ + agent_id@ + ": "@ + secret_ref@,
            PolicyError::PartitionAccessDenied { agent_id, partition } =>
                "partition access denied for agent "@ + agent_id@ + ": "@ + partition@,
            PolicyError::HeuristicBlocked { pattern, description } =>
                "heuristic blocked pattern '"@ + pattern@ + "': "@ + description@,
        }
    }

    /// What is said of something that policy forbids.
    pub fn to_text(&self) -> (r: String)
        ensures
            r@ == self.said(),
    {
        match self {
            PolicyError::CapabilityDenied { agent_id, capability } => {
                let mut text = cat3("capability denied for agent ", agent_id.as_str(), ": ");
                text.append(capability.as_str());
                text
            },
            PolicyError::SecretAccessDenied { agent_id, secret_ref } => {
                let mut text = cat3("secret access denied for agent ", agent_id.as_str(), ": ");
                text.append(secret_ref.as_str());
                text
            },
            PolicyError::PartitionAccessDenied { agent_id, partition } => {
                let mut text = cat3("partition access denied for agent ", agent_id.as_str(), ": ");
                text.append(partition.as_str());
                text
            },
            PolicyError::HeuristicBlocked { pattern, description } => {
                let mut text = cat3("heuristic blocked pattern '", pattern.as_str(), "': ");
                text.append(description.as_str());
                text
            },
        }
    }
}

impl InfraError {
    /// What is said of a failure of what the system runs on.
    pub open spec fn said(self) -> Seq<char> {
        match self {
            InfraError::Database(s) => "database error: "@ + s@,
            InfraError::Io(s) => "I/O error: "@ + s@,
            InfraError::Config(s) => "config error: "@ + s@,
            InfraError::ContainerRuntime(s) => "container runtime error: "@ + s@,
        }
    }

    /// What is said of a failure of what the system runs on.
    pub fn to_text(&self) -> (r: String)
        ensures
            r@ == self.said(),
    {
        match self {
            InfraError::Database(s) => cat("database error: ", s.as_str()),
            InfraError::Io(s) => cat("I/O error: ", s.as_str()),
            InfraError::Config(s) => cat("config error: ", s.as_str()),
            InfraError::ContainerRuntime(s) => cat("container runtime error: ", s.as_str()),
        }
    }
}

impl NeuromancerError {
    /// What is said of an error.
    pub open spec fn said(self) -> Seq<char> {
        match self {
            NeuromancerError::Agent(e) => "agent error: "@ + e.said(),
            NeuromancerError::Llm(e) => "LLM error: "@ + e.said(),
            NeuromancerError::Tool(e) => "tool error: "@ + e.said(),
            NeuromancerError::Policy(e) => "policy error: "@ + e.said(),
            NeuromancerError::Infra(e) => "infra error: "@ + e.said(),
        }
    }

    /// What is said of an error.
    pub fn to_text(&self) -> (r: String)
        ensures
            r@ == self.said(),
    {
        match self {
            NeuromancerError::Agent(e) => cat("agent error: ", e.to_text().as_str()),
            NeuromancerError::Llm(e) => cat("LLM error: ", e.to_text().as_str()),
            NeuromancerError::Tool(e) => cat("tool error: ", e.to_text().as_str()),
            NeuromancerError::Policy(e) => cat("policy error: ", e.to_text().as_str()),
            NeuromancerError::Infra(e) => cat("infra error: ", e.to_text().as_str()),
        }
    }
}

/// What an error says begins with what it is about and goes on with what it says itself.
pub proof fn errors_say_where_they_come_from(
    agent: AgentError,
    llm: LlmError,
    tool: ToolError,
    policy: PolicyError,
    infra: InfraError,
)
    ensures
        NeuromancerError::Agent(agent).said() == "agent error: "@ + agent.said(),
        NeuromancerError::Llm(llm).said() == "LLM error: "@ + llm.said(),
        NeuromancerError::Tool(tool).said() == "tool error: "@ + tool.said(),
        NeuromancerError::Policy(policy).said() == "policy error: "@ + policy.said(),
        NeuromancerError::Infra(infra).said() == "infra error: "@ + infra.said(),
{
}

/// An error names what it is about, each thing in its place.
pub proof fn errors_name_what_they_are_about(a: String, b: String, id: u128, n: u32, m: u32, d: Duration)
    ensures
        (AgentError::MaxIterationsExceeded { task_id: id, iterations: n }).said()
            == "max iterations exceeded for task "@ + id_text(id) + ": "@ + decimal(n as nat)
            + " iterations"@,
        (AgentError::InvalidToolCall { tool_id: a, reason: b }).said() == "invalid tool call to "@ + a@
            + ": "@ + b@,
        (AgentError::ContextOverflow { budget: n, used: m }).said() == "context overflow: budget="@
            + decimal(n as nat) + ", used="@ + decimal(m as nat),
        (AgentError::CheckpointCorrupted { task_id: id }).said() == "checkpoint corrupted for task "@
            + id_text(id),
        (ToolError::NotFound { tool_id: a }).said() == "tool not found: "@ + a@,
        (ToolError::ExecutionFailed { tool_id: a, message: b }).said() == "tool "@ + a@
            + " execution failed: "@ + b@,
        (ToolError::McpServerDown { server_id: a }).said() == "MCP server down: "@ + a@,
        (ToolError::CapabilityDenied { agent_id: a, capability: b }).said()
            == "capability denied for agent "@ + a@ + ": "@ + b@,
        (PolicyError::CapabilityDenied { agent_id: a, capability: b }).said()
            == "capability denied for agent "@ + a@ + ": "@ + b@,
        (PolicyError::SecretAccessDenied { agent_id: a, secret_ref: b }).said()
            == "secret access denied for agent "@ + a@ + ": "@ + b@,
        (PolicyError::PartitionAccessDenied { agent_id: a, partition: b }).said()
            == "partition access denied for agent "@ + a@ + ": "@ + b@,
        (PolicyError::HeuristicBlocked { pattern: a, description: b }).said()
            == "heuristic blocked pattern '"@ + a@ + "': "@ + b@,
        (LlmError::InvalidResponse { reason: a }).said() == "invalid LLM response: "@ + a@,
        (LlmError::ContentFiltered { reason: a }).said() == "content filtered: "@ + a@,
        InfraError::Database(a).said() == "database error: "@ + a@,
        InfraError::Io(a).said() == "I/O error: "@ + a@,
        InfraError::Config(a).said() == "config error: "@ + a@,
        InfraError::ContainerRuntime(a).said() == "container runtime error: "@ + a@,
{
}

/// What went on too long is named, and how long it was.
pub proof fn errors_say_how_long_it_was(a: String, id: u128, status: u16, d: Duration)
    requires
        d.nanos < 1_000_000_000,
    ensures
        (AgentError::Timeout { task_id: id, elapsed: d }).said() == "timeout for task "@ + id_text(id)
            + " after "@ + elapsed_text(d.secs, d.nanos),
        (ToolError::Timeout { tool_id: a, elapsed: d }).said() == "tool "@ + a@ + " timed out after "@
            + elapsed_text(d.secs, d.nanos),
        (LlmError::RateLimited { provider: a, retry_after: d }).said() == "rate limited by "@ + a@
            + ", retry after "@ + elapsed_text(d.secs, d.nanos),
        (LlmError::ProviderUnavailable { provider: a, status }).said() == "provider "@ + a@
            + " unavailable (status "@ + decimal(status as nat) + ")"@,
{
}

} // verus!

//! Tools, the calls that agents make of them, and who may make them.

use vstd::prelude::*;
use crate::agent::AgentId;
use crate::json::{Json, JsonTree};
use crate::task::TaskId;

verus! {

/// Specification of a tool available to an agent.
#[derive(Debug, Clone)]
pub struct ToolSpec {
    pub id: String,
    pub name: String,
    pub description: String,
    pub parameters_schema: Json,
    pub source: ToolSource,
}

#[derive(Debug, Clone)]
pub enum ToolSource {
    Builtin,
    Mcp { server_id: String },
    A2a { peer_id: AgentId },
    Skill { skill_id: String },
}

/// A tool call request from an agent.
#[derive(Debug, Clone)]
pub struct ToolCall {
    pub id: String,
    pub tool_id: String,
    pub arguments: Json,
}

/// Result of executing a tool call.
#[derive(Debug, Clone)]
pub struct ToolResult {
    pub call_id: String,
    pub output: ToolOutput,
}

#[derive(Debug, Clone)]
pub enum ToolOutput {
    Success(Json),
    Error(String),
}

/// Context for an agent's tool execution — carries identity and policy info.
#[derive(Debug, Clone)]
pub struct AgentContext {
    pub agent_id: AgentId,
    pub task_id: TaskId,
    pub allowed_tools: Vec<String>,
    pub allowed_mcp_servers: Vec<String>,
    pub allowed_peer_agents: Vec<AgentId>,
    pub allowed_secrets: Vec<String>,
    pub allowed_memory_partitions: Vec<String>,
}

/// What a tool call asks for.
#[verifier::ext_equal]
pub struct CallView {
    pub id: Seq<char>,
    pub tool_id: Seq<char>,
    pub arguments: JsonTree,
}

impl View for ToolCall {
    type V = CallView;

    open spec fn view(&self) -> CallView {
        CallView { id: self.id@, tool_id: self.tool_id@, arguments: self.arguments@ }
    }
}

/// What the tool calls of a list ask for.
pub open spec fn call_views(list: Seq<ToolCall>) -> Seq<CallView> {
    Seq::new(list.len(), |i: int| list[i]@)
}

impl ToolCall {
    /// A copy of the call.
    pub fn copy(&self) -> (r: ToolCall)
        ensures
            r@ == self@,
    {
        ToolCall {
            id: self.id.clone(),
            tool_id: self.tool_id.clone(),
            arguments: self.arguments.copy(),
        }
    }
}

/// Copies of the calls of a list.
pub fn copy_calls(list: &Vec<ToolCall>) -> (r: Vec<ToolCall>)
    ensures
        call_views(r@) == call_views(list@),
{
    let mut r: Vec<ToolCall> = Vec::new();
    let mut i: usize = 0;
    while i < list.len()
        invariant
            i <= list@.len(),
            r@.len() == i,
            forall|k: int| 0 <= k < i ==> (#[trigger] r@[k])@ == list@[k]@,
        decreases list@.len() - i,
    {
        r.push(list[i].copy());
        i = i + 1;
    }
    assert(call_views(r@) =~= call_views(list@));
    r
}

/// What a tool gave back.
#[verifier::ext_equal]
pub enum ToolOutputView {
    Success(JsonTree),
    Error(Seq<char>),
}

/// What a tool gave back, and for which call.
#[verifier::ext_equal]
pub struct ResultView {
    pub call_id: Seq<char>,
    pub output: ToolOutputView,
}

impl View for ToolResult {
    type V = ResultView;

    open spec fn view(&self) -> ResultView {
        ResultView {
            call_id: self.call_id@,
            output: match self.output {
                ToolOutput::Success(value) => ToolOutputView::Success(value@),
                ToolOutput::Error(error) => ToolOutputView::Error(error@),
            },
        }
    }
}

impl ToolResult {
    /// A copy of the result.
    pub fn copy(&self) -> (r: ToolResult)
        ensures
            r@ == self@,
    {
        ToolResult {
            call_id: self.call_id.clone(),
            output: match &self.output {
                ToolOutput::Success(value) => ToolOutput::Success(value.copy()),
                ToolOutput::Error(error) => ToolOutput::Error(error.clone()),
            },
        }
    }
}

/// Calls and results that are told alike are the same in all that they hold.
pub proof fn calls_and_results_are_told_whole(a: ToolCall, b: ToolCall, x: ToolResult, y: ToolResult)
    requires
        a@ == b@,
        x@ == y@,
    ensures
        a.id@ == b.id@,
        a.tool_id@ == b.tool_id@,
        a.arguments@ == b.arguments@,
        x.call_id@ == y.call_id@,
        match (x.output, y.output) {
            (ToolOutput::Success(v), ToolOutput::Success(w)) => v@ == w@,
            (ToolOutput::Error(v), ToolOutput::Error(w)) => v@ == w@,
            _ => false,
        },
{
}

} // verus!

//! The messages of the control plane: JSON-RPC envelopes, parameters and results.

use std::collections::BTreeMap;
use vstd::prelude::*;
use crate::json::Json;

verus! {

/// JSON-RPC 2.0 id type supported by the daemon control-plane RPC.
#[derive(Debug, Clone, PartialEq, Eq)]
pub enum JsonRpcId {
    Number(i64),
    String(String),
}

/// JSON-RPC 2.0 request envelope.
#[derive(Debug, Clone, PartialEq)]
pub struct JsonRpcRequest {
    pub jsonrpc: String,
    pub method: String,
    pub params: Option<Json>,
    pub id: Option<JsonRpcId>,
}

/// JSON-RPC 2.0 response envelope.
#[derive(Debug, Clone, PartialEq)]
pub struct JsonRpcResponse {
    pub jsonrpc: String,
    pub result: Option<Json>,
    pub error: Option<JsonRpcError>,
    pub id: Option<JsonRpcId>,
}

impl JsonRpcResponse {
    /// The answer to a request that was carried out.
    pub fn success(id: JsonRpcId, result: Json) -> (r: JsonRpcResponse)
        ensures
            r.jsonrpc@ == "2.0"@,
            r.result == Some(result),
            r.error is None,
            r.id == Some(id),
    {
        JsonRpcResponse {
            jsonrpc: "2.0".to_owned(),
            result: Some(result),
            error: None,
            id: Some(id),
        }
    }

    /// The answer to a request that was not carried out.
    pub fn error(id: Option<JsonRpcId>, code: i64, message: String) -> (r: JsonRpcResponse)
        ensures
            r.jsonrpc@ == "2.0"@,
            r.result is None,
            r.error == Some(JsonRpcError { code, message, data: None }),
            r.id == id,
    {
        JsonRpcResponse {
            jsonrpc: "2.0".to_owned(),
            result: None,
            error: Some(JsonRpcError { code, message, data: None }),
            id,
        }
    }
}

/// JSON-RPC 2.0 error object.
#[derive(Debug, Clone, PartialEq)]
pub struct JsonRpcError {
    pub code: i64,
    pub message: String,
    pub data: Option<Json>,
}

pub const JSON_RPC_PARSE_ERROR: i64 = -32700;
pub const JSON_RPC_INVALID_REQUEST: i64 = -32600;
pub const JSON_RPC_METHOD_NOT_FOUND: i64 = -32601;
pub const JSON_RPC_INVALID_PARAMS: i64 = -32602;
pub const JSON_RPC_INTERNAL_ERROR: i64 = -32603;
pub const JSON_RPC_GENERIC_SERVER_ERROR: i64 = -32000;
pub const JSON_RPC_RESOURCE_NOT_FOUND: i64 = -32004;

#[derive(Debug, Clone, PartialEq, Eq)]
pub struct HealthResult {
    pub status: String,
    pub version: String,
    pub uptime_secs: u64,
}

#[derive(Debug, Clone, PartialEq, Eq)]
pub struct ConfigReloadResult {
    pub status: String,
}

#[derive(Debug, Clone, PartialEq, Eq)]
pub struct OrchestratorTurnParams {
    pub message: String,
}

#[derive(Debug, Clone, PartialEq, Eq)]
pub struct DelegatedRun {
    pub run_id: String,
    pub agent_id: String,
    pub state: String,
    pub summary: Option<String>,
    pub thread_id: Option<String>,
    pub initial_instruction: Option<String>,
    pub error: Option<String>,
}

#[derive(Debug, Clone, PartialEq, Eq)]
pub struct DelegatedTask {
    pub run_id: String,
    pub agent_id: String,
    pub thread_id: String,
    pub state: String,
}

#[derive(Debug, Clone, PartialEq, Eq)]
pub struct OrchestratorToolInvocation {
    pub call_id: String,
    pub tool_id: String,
    pub arguments: Json,
    pub status: String,
    pub output: Json,
}

#[derive(Debug, Clone, PartialEq, Eq)]
pub struct OrchestratorTurnResult {
    pub turn_id: String,
    pub response: String,
    pub delegated_tasks: Vec<DelegatedTask>,
    pub tool_invocations: Vec<OrchestratorToolInvocation>,
}

#[derive(Debug, Clone, PartialEq, Eq)]
pub struct OrchestratorRunsListResult {
    pub runs: Vec<DelegatedRun>,
}

#[derive(Debug, Clone, PartialEq, Eq)]
pub struct OrchestratorRunGetParams {
    pub run_id: String,
}

#[derive(Debug, Clone, PartialEq, Eq)]
pub struct OrchestratorRunGetResult {
    pub run: DelegatedRun,
}

#[derive(Debug, Clone, PartialEq, Eq)]
pub struct ThreadSummary {
    pub thread_id: String,
    pub kind: String,
    pub agent_id: Option<String>,
    pub latest_run_id: Option<String>,
    pub state: String,
    pub updated_at: String,
    pub resurrected: bool,
    pub active: bool,
}

#[derive(Debug, Clone, PartialEq, Eq)]
pub struct OrchestratorThreadsListResult {
    pub threads: Vec<ThreadSummary>,
}

#[derive(Debug, Clone, PartialEq, Eq)]
pub struct OrchestratorThreadGetParams {
    pub thread_id: String,
    pub offset: Option<usize>,
    pub limit: Option<usize>,
}

#[derive(Debug, Clone, PartialEq, Eq)]
pub struct ThreadEvent {
    pub event_id: String,
    pub thread_id: String,
    pub thread_kind: String,
    pub seq: u64,
    pub ts: String,
    pub event_type: String,
    pub agent_id: Option<String>,
    pub run_id: Option<String>,
    pub payload: Json,
    pub redaction_applied: bool,
    pub turn_id: Option<String>,
    pub parent_event_id: Option<String>,
    pub call_id: Option<String>,
    pub attempt: Option<u32>,
    pub duration_ms: Option<u64>,
    pub meta: Option<Json>,
}

#[derive(Debug, Clone, PartialEq, Eq)]
pub struct OrchestratorThreadGetResult {
    pub thread_id: String,
    pub events: Vec<ThreadEvent>,
    pub total: usize,
    pub offset: usize,
    pub limit: usize,
}

#[derive(Debug, Clone, PartialEq, Eq)]
pub struct OrchestratorThreadResurrectParams {
    pub thread_id: String,
}

#[derive(Debug, Clone, PartialEq, Eq)]
pub struct OrchestratorThreadResurrectResult {
    pub thread: ThreadSummary,
}

#[derive(Debug, Clone, PartialEq, Eq)]
pub struct OrchestratorSubagentTurnParams {
    pub thread_id: String,
    pub message: String,
}

#[derive(Debug, Clone, PartialEq, Eq)]
pub struct OrchestratorSubagentTurnResult {
    pub thread_id: String,
    pub run: DelegatedRun,
    pub response: String,
    pub tool_invocations: Vec<OrchestratorToolInvocation>,
}

#[derive(Debug, Clone, PartialEq, Eq)]
pub struct OrchestratorOutputsPullParams {
    pub limit: Option<usize>,
}

#[derive(Debug, Clone, PartialEq, Eq)]
pub struct OrchestratorOutputItem {
    pub output_id: String,
    pub run_id: String,
    pub thread_id: String,
    pub agent_id: String,
    pub state: String,
    pub summary: Option<String>,
    pub error: Option<String>,
    pub no_reply: bool,
    pub content: Option<String>,
    pub published_at: String,
}

#[derive(Debug, Clone, PartialEq, Eq)]
pub struct OrchestratorOutputsPullResult {
    pub outputs: Vec<OrchestratorOutputItem>,
    pub remaining: usize,
}

#[derive(Debug, Clone, PartialEq, Eq)]
pub struct OrchestratorEventsQueryParams {
    pub thread_id: Option<String>,
    pub run_id: Option<String>,
    pub agent_id: Option<String>,
    pub tool_id: Option<String>,
    pub event_type: Option<String>,
    pub error_contains: Option<String>,
    pub offset: Option<usize>,
    pub limit: Option<usize>,
}

#[derive(Debug, Clone, PartialEq, Eq)]
pub struct OrchestratorEventsQueryResult {
    pub events: Vec<ThreadEvent>,
    pub total: usize,
    pub offset: usize,
    pub limit: usize,
}

#[derive(Debug, Clone, PartialEq, Eq)]
pub struct OrchestratorRunDiagnoseParams {
    pub run_id: String,
}

#[derive(Debug, Clone, PartialEq, Eq)]
pub struct OrchestratorRunDiagnoseResult {
    pub run: DelegatedRun,
    pub thread: Option<ThreadSummary>,
    pub events: Vec<ThreadEvent>,
    pub inferred_failure_cause: Option<String>,
}

#[derive(Debug, Clone, PartialEq, Eq)]
pub struct OrchestratorStatsGetResult {
    pub threads_total: usize,
    pub events_total: usize,
    pub runs_total: usize,
    pub failed_runs: usize,
    pub event_counts: BTreeMap<String, usize>,
    pub tool_counts: BTreeMap<String, usize>,
    pub agent_counts: BTreeMap<String, usize>,
}

#[derive(Debug, Clone, PartialEq, Eq)]
pub enum OrchestratorThreadMessage {
    Text {
        role: String,
        content: String,
    },
    ToolInvocation {
        call_id: String,
        tool_id: String,
        arguments: Json,
        status: String,
        output: Json,
    },
}

#[derive(Debug, Clone, PartialEq, Eq)]
pub struct OrchestratorContextGetResult {
    pub messages: Vec<OrchestratorThreadMessage>,
}

} // verus!

//! Tools of other processes: which servers there are, what they offer and what they answer.

use vstd::prelude::*;
use crate::config::{McpServerConfig, McpServerKind};
use crate::error::{NeuromancerError, ToolError};
use crate::json::{parse, value_read, Json, JsonTree};
use crate::named::{
    lemma_entries_are_found, lemma_name_index, lemma_same_names, lookup, name_index, Named,
};
use crate::text::{cat, cat3, copy_list, join, joined, list_has, trim, trimmed, views};
use crate::tool::{AgentContext, ToolCall, ToolOutput, ToolResult, ToolSource, ToolSpec};

verus! {

/// A tool that a server offers.
#[derive(Debug)]
pub struct McpToolDefinition {
    pub name: String,
    pub description: String,
    pub input_schema: Json,
}

#[derive(Debug)]
pub enum McpError {
    ServerNotFound(String),
    ServerNotRunning(String),
    Transport(String),
    Protocol(String),
    ToolNotFound(String),
    Io(String),
    Json(String),
    SpawnFailed(String),
    Timeout,
}

impl McpError {
    /// What is said of the error.
    pub open spec fn said(self) -> Seq<char> {
        match self {
            McpError::ServerNotFound(s) => "server not found: "@ + s@,
            McpError::ServerNotRunning(s) => "server not running: "@ + s@,
            McpError::Transport(s) => "transport error: "@ + s@,
            McpError::Protocol(s) => "protocol error: "@ + s@,
            McpError::ToolNotFound(s) => "tool not found: "@ + s@,
            McpError::Io(s) => "io error: "@ + s@,
            McpError::Json(s) => "json error: "@ + s@,
            McpError::SpawnFailed(s) => "server spawn failed: "@ + s@,
            McpError::Timeout => "timeout waiting for server response"@,
        }
    }

    /// What is said of the error.
    pub fn to_text(&self) -> (r: String)
        ensures
            r@ == self.said(),
    {
        match self {
            McpError::ServerNotFound(s) => cat("server not found: ", s.as_str()),
            McpError::ServerNotRunning(s) => cat("server not running: ", s.as_str()),
            McpError::Transport(s) => cat("transport error: ", s.as_str()),
            McpError::Protocol(s) => cat("protocol error: ", s.as_str()),
            McpError::ToolNotFound(s) => cat("tool not found: ", s.as_str()),
            McpError::Io(s) => cat("io error: ", s.as_str()),
            McpError::Json(s) => cat("json error: ", s.as_str()),
            McpError::SpawnFailed(s) => cat("server spawn failed: ", s.as_str()),
            McpError::Timeout => "timeout waiting for server response".to_owned(),
        }
    }

    /// The error as one of the system: a server is down.
    pub fn into_neuromancer(self) -> (r: NeuromancerError)
        ensures
            r matches NeuromancerError::Tool(ToolError::McpServerDown { server_id }) && server_id@
                == self.said(),
    {
        NeuromancerError::Tool(ToolError::McpServerDown { server_id: self.to_text() })
    }
}

/// Entry in the pool: config, whether the server runs, and what it offers.
#[derive(Debug)]
pub struct PoolEntry {
    pub config: McpServerConfig,
    pub running: bool,
    pub cached_tools: Vec<McpToolDefinition>,
}

/// Status of an MCP server in the pool.
#[derive(Debug, Clone, Copy, PartialEq, Eq, Structural)]
pub enum ServerStatus {
    Running { tool_count: usize },
    Stopped,
}

/// MCP client pool managing connections to configured MCP servers.
#[derive(Debug)]
pub struct McpClientPool {
    pub servers: Named<PoolEntry>,
}

/// How a server is started.
#[derive(Debug)]
pub enum StartPlan {
    /// It runs already.
    Running,
    /// A process is started by this command.
    Spawn { command: Vec<String> },
    /// Servers of its kind are not started yet.
    Unsupported,
}

impl PoolEntry {
    /// Whether the server runs, and with how many tools.
    pub open spec fn status(self) -> ServerStatus {
        if self.running {
            ServerStatus::Running { tool_count: self.cached_tools@.len() as usize }
        } else {
            ServerStatus::Stopped
        }
    }
}

/// What starting a server comes to.
pub open spec fn start_plan(id: Seq<char>, entry: PoolEntry, r: Result<StartPlan, McpError>) -> bool {
    match r {
        Ok(StartPlan::Running) => entry.running,
        Ok(StartPlan::Spawn { command }) => !entry.running && entry.config.kind
            == McpServerKind::ChildProcess && (entry.config.command matches Some(c) && c@
            == command@),
        Ok(StartPlan::Unsupported) => !entry.running && entry.config.kind
            != McpServerKind::ChildProcess,
        Err(e) => !entry.running && entry.config.kind == McpServerKind::ChildProcess
            && entry.config.command is None && (e matches McpError::SpawnFailed(s) && s@
            == "child_process server '"@ + id + "' has no command"@),
    }
}

/// There is no such server.
pub open spec fn is_unknown(e: McpError, id: Seq<char>) -> bool {
    e matches McpError::ServerNotFound(s) && s@ == id
}

/// A tool as an agent sees it.
pub open spec fn is_spec_of(spec: ToolSpec, server_id: Seq<char>, tool: McpToolDefinition) -> bool {
    &&& spec.id@ == "mcp:"@ + server_id + ":"@ + tool.name@
    &&& spec.name == tool.name
    &&& spec.description == tool.description
    &&& spec.parameters_schema@ == tool.input_schema@
    &&& spec.source matches ToolSource::Mcp { server_id: s }
    &&& s@ == server_id
}

/// The tools of some servers, each with its server.
pub open spec fn offered(
    servers: Seq<(String, PoolEntry)>,
    allowed: Seq<Seq<char>>,
) -> Seq<(Seq<char>, McpToolDefinition)>
    decreases servers.len(),
{
    if servers.len() == 0 {
        Seq::empty()
    } else {
        let before = offered(servers.drop_last(), allowed);
        let (id, entry) = servers.last();
        if allowed.contains(id@) {
            before + with_server(id@, entry.cached_tools@)
        } else {
            before
        }
    }
}

/// A tool is offered to who may use the servers: one of them has it.
pub open spec fn is_offered(
    servers: Map<Seq<char>, PoolEntry>,
    allowed: Seq<Seq<char>>,
    id: Seq<char>,
    tool: McpToolDefinition,
) -> bool {
    &&& allowed.contains(id)
    &&& servers.dom().contains(id)
    &&& servers[id].cached_tools@.contains(tool)
}

proof fn lemma_offered(
    servers: Seq<(String, PoolEntry)>,
    allowed: Seq<Seq<char>>,
    id: Seq<char>,
    tool: McpToolDefinition,
)
    ensures
        offered(servers, allowed).contains((id, tool)) <==> allowed.contains(id) && exists|k: int|
            0 <= k < servers.len() && (#[trigger] servers[k]).0@ == id
                && servers[k].1.cached_tools@.contains(tool),
    decreases servers.len(),
{
    let all = offered(servers, allowed);
    if servers.len() > 0 {
        let front = servers.drop_last();
        let before = offered(front, allowed);
        let last = servers.last();
        let own = with_server(last.0@, last.1.cached_tools@);
        lemma_offered(front, allowed, id, tool);
        if all.contains((id, tool)) {
            let i = choose|i: int| 0 <= i < all.len() && all[i] == (id, tool);
            if i < before.len() {
                assert(before[i] == (id, tool));
                let k = choose|k: int|
                    0 <= k < front.len() && (#[trigger] front[k]).0@ == id
                        && front[k].1.cached_tools@.contains(tool);
                assert(servers[k] == front[k]);
            } else {
                assert(own[i - before.len()] == (id, tool));
                assert(last.1.cached_tools@[i - before.len()] == tool);
                assert(servers[servers.len() - 1] == last);
            }
        }
        if allowed.contains(id) && exists|k: int|
            0 <= k < servers.len() && (#[trigger] servers[k]).0@ == id
                && servers[k].1.cached_tools@.contains(tool) {
            let k = choose|k: int|
                0 <= k < servers.len() && (#[trigger] servers[k]).0@ == id
                    && servers[k].1.cached_tools@.contains(tool);
            if k < front.len() {
                assert(front[k] == servers[k]);
                let i = choose|i: int| 0 <= i < before.len() && before[i] == (id, tool);
                assert(all[i] == (id, tool));
            } else {
                let j = choose|j: int|
                    0 <= j < last.1.cached_tools@.len() && last.1.cached_tools@[j] == tool;
                assert(own[j] == (id, tool));
                assert(all[before.len() + j] == (id, tool));
            }
        }
    }
}

/// The tools of one server, each with its server.
pub open spec fn with_server(
    id: Seq<char>,
    tools: Seq<McpToolDefinition>,
) -> Seq<(Seq<char>, McpToolDefinition)> {
    Seq::new(tools.len(), |i: int| (id, tools[i]))
}

/// The specs are those of the tools.
pub open spec fn are_specs_of(
    specs: Seq<ToolSpec>,
    tools: Seq<(Seq<char>, McpToolDefinition)>,
) -> bool {
    &&& specs.len() == tools.len()
    &&& forall|i: int|
        0 <= i < specs.len() ==> is_spec_of(#[trigger] specs[i], tools[i].0, tools[i].1)
}

fn command_of(c: &McpServerConfig) -> (r: Option<Vec<String>>)
    ensures
        match (r, c.command) {
            (Some(a), Some(b)) => a@ == b@,
            (None, None) => true,
            _ => false,
        },
{
    match &c.command {
        Some(list) => Some(copy_list(list)),
        None => None,
    }
}

impl McpClientPool {
    /// Create a new pool from configuration: no server runs yet.
    pub fn new(configs: Named<McpServerConfig>) -> (r: McpClientPool)
        ensures
            r.servers.list().len() == configs.list().len(),
            forall|i: int|
                0 <= i < configs.list().len() ==> {
                    let (id, entry) = #[trigger] r.servers.list()[i];
                    id == configs.list()[i].0 && entry.config == configs.list()[i].1
                        && !entry.running && entry.cached_tools@.len() == 0
                },
            r.servers@.dom() == configs@.dom(),
            forall|id: Seq<char>| #[trigger]
                configs@.dom().contains(id) ==> r.servers@[id].config == configs@[id]
                    && !r.servers@[id].running && r.servers@[id].cached_tools@.len() == 0,
    {
        let ghost all = configs.list();
        let mut rest = configs.into_entries();
        let mut servers: Named<PoolEntry> = Named::new();
        assert(all.skip(0) =~= all);
        while rest.len() > 0
            invariant
                servers.list().len() <= all.len(),
                crate::named::names_distinct(all),
                rest@ == all.skip(servers.list().len() as int),
                forall|i: int|
                    0 <= i < servers.list().len() ==> {
                        let (id, entry) = #[trigger] servers.list()[i];
                        id == all[i].0 && entry.config == all[i].1 && !entry.running
                            && entry.cached_tools@.len() == 0
                    },
            decreases rest@.len(),
        {
            let ghost n = servers.list().len() as int;
            let (id, config) = rest.remove(0);
            proof {
                assert(rest@ =~= all.skip(n + 1));
                assert((id, config) == all[n]);
                assert forall|k: int| 0 <= k < servers.list().len() implies (
                #[trigger] servers.list()[k]).0@ != id@ by {
                    assert(all[k].0@ != all[n].0@);
                }
            }
            let entry = PoolEntry { config, running: false, cached_tools: Vec::new() };
            servers.append(id, entry);
        }
        proof {
            let list = servers.list();
            assert forall|id: Seq<char>| lookup(list, id) is Some <==> #[trigger] lookup(
                all,
                id,
            ) is Some by {
                lemma_same_names(list, all, id);
            }
            assert(servers@.dom() =~= configs@.dom());
            assert forall|id: Seq<char>| #[trigger] configs@.dom().contains(id) implies servers@[
                id
            ].config == configs@[id] && !servers@[id].running
                && servers@[id].cached_tools@.len() == 0 by {
                lemma_same_names(list, all, id);
                lemma_name_index(all, id);
                lemma_name_index(list, id);
            }
        }
        McpClientPool { servers }
    }

    /// How a server is started.
    pub fn plan_start(&self, server_id: &str) -> (r: Result<StartPlan, McpError>)
        ensures
            self.servers@.dom().contains(server_id@) ==> start_plan(
                server_id@,
                self.servers@[server_id@],
                r,
            ),
            !self.servers@.dom().contains(server_id@) ==> (r matches Err(e) && is_unknown(
                e,
                server_id@,
            )),
    {
        match self.servers.get(server_id) {
            None => Err(McpError::ServerNotFound(server_id.to_owned())),
            Some(entry) => {
                if entry.running {
                    return Ok(StartPlan::Running);
                }
                match entry.config.kind {
                    McpServerKind::ChildProcess => match command_of(&entry.config) {
                        Some(command) => Ok(StartPlan::Spawn { command }),
                        None => Err(
                            McpError::SpawnFailed(
                                cat3("child_process server '", server_id, "' has no command"),
                            ),
                        ),
                    },
                    _ => Ok(StartPlan::Unsupported),
                }
            },
        }
    }

    /// Notes that a server was started and offers some tools.
    pub fn started(&mut self, server_id: &str, tools: Vec<McpToolDefinition>)
        ensures
            !old(self).servers@.dom().contains(server_id@) ==> final(self).servers@ == old(
                self,
            ).servers@,
            old(self).servers@.dom().contains(server_id@) ==> final(self).servers@ == old(
                self,
            ).servers@.insert(
                server_id@,
                PoolEntry {
                    running: true,
                    cached_tools: tools,
                    ..old(self).servers@[server_id@]
                },
            ),
    {
        match self.servers.remove(server_id) {
            Some(entry) => {
                let entry = PoolEntry {
                    config: entry.config,
                    running: true,
                    cached_tools: tools,
                };
                self.servers.insert(server_id.to_owned(), entry);
                assert(self.servers@ =~= old(self).servers@.insert(server_id@, entry));
            },
            None => {
                assert(self.servers@ =~= old(self).servers@);
            },
        }
    }

    /// Notes that a server was stopped. It offers nothing any more.
    pub fn stopped(&mut self, server_id: &str) -> (r: Result<bool, McpError>)
        ensures
            match r {
                Ok(was_running) => {
                    &&& old(self).servers@.dom().contains(server_id@)
                    &&& was_running == old(self).servers@[server_id@].running
                    &&& final(self).servers@.dom() == old(self).servers@.dom()
                    &&& !final(self).servers@[server_id@].running
                    &&& final(self).servers@[server_id@].cached_tools@.len() == 0
                    &&& final(self).servers@[server_id@].config == old(
                        self,
                    ).servers@[server_id@].config
                    &&& final(self).servers@.remove(server_id@) == old(self).servers@.remove(
                        server_id@,
                    )
                },
                Err(e) => !old(self).servers@.dom().contains(server_id@) && is_unknown(
                    e,
                    server_id@,
                ) && final(self).servers@ == old(self).servers@,
            },
    {
        match self.servers.remove(server_id) {
            Some(entry) => {
                let was_running = entry.running;
                let entry = PoolEntry {
                    config: entry.config,
                    running: false,
                    cached_tools: Vec::new(),
                };
                self.servers.insert(server_id.to_owned(), entry);
                proof {
                    assert(self.servers@ =~= old(self).servers@.insert(server_id@, entry));
                    assert(self.servers@.dom() =~= old(self).servers@.dom());
                    assert(self.servers@.remove(server_id@) =~= old(self).servers@.remove(
                        server_id@,
                    ));
                }
                Ok(was_running)
            },
            None => {
                assert(self.servers@ =~= old(self).servers@);
                Err(McpError::ServerNotFound(server_id.to_owned()))
            },
        }
    }

    /// List all tool specs visible to an agent, filtered by their allowed MCP servers.
    pub fn list_tools_for_agent(&self, ctx: &AgentContext) -> (r: Vec<ToolSpec>)
        ensures
            are_specs_of(r@, offered(self.servers.list(), views(ctx.allowed_mcp_servers@))),
            forall|id: Seq<char>, tool: McpToolDefinition| #[trigger]
                offered(self.servers.list(), views(ctx.allowed_mcp_servers@)).contains((id, tool))
                    <==> is_offered(self.servers@, views(ctx.allowed_mcp_servers@), id, tool),
    {
        let ghost all = self.servers.list();
        let ghost allowed = views(ctx.allowed_mcp_servers@);
        let mut tools: Vec<ToolSpec> = Vec::new();
        let mut i: usize = 0;
        assert(all.take(0) =~= Seq::empty());
        while i < self.servers.len()
            invariant
                i <= self.servers.list().len(),
                all == self.servers.list(),
                allowed == views(ctx.allowed_mcp_servers@),
                are_specs_of(tools@, offered(all.take(i as int), allowed)),
            decreases self.servers.list().len() - i,
        {
            let server = self.servers.at(i);
            proof {
                assert(all.take(i + 1).drop_last() =~= all.take(i as int));
                assert(all.take(i + 1).last() == *server);
            }
            if list_has(&ctx.allowed_mcp_servers, server.0.as_str()) {
                let ghost before = offered(all.take(i as int), allowed);
                let ghost more = with_server(server.0@, server.1.cached_tools@);
                let mut k: usize = 0;
                assert(before + more.take(0) =~= before);
                while k < server.1.cached_tools.len()
                    invariant
                        k <= server.1.cached_tools@.len(),
                        more == with_server(server.0@, server.1.cached_tools@),
                        are_specs_of(tools@, before + more.take(k as int)),
                    decreases server.1.cached_tools@.len() - k,
                {
                    let tool = &server.1.cached_tools[k];
                    let mut id = cat3("mcp:", server.0.as_str(), ":");
                    id.append(tool.name.as_str());
                    let spec = ToolSpec {
                        id,
                        name: tool.name.clone(),
                        description: tool.description.clone(),
                        parameters_schema: tool.input_schema.copy(),
                        source: ToolSource::Mcp { server_id: server.0.clone() },
                    };
                    assert(is_spec_of(spec, server.0@, *tool));
                    tools.push(spec);
                    assert(before + more.take(k + 1) =~= (before + more.take(k as int)).push(
                        (server.0@, *tool),
                    ));
                    k = k + 1;
                }
                assert(more.take(k as int) =~= more);
            }
            i = i + 1;
        }
        assert(all.take(i as int) =~= all);
        proof {
            assert forall|id: Seq<char>, tool: McpToolDefinition| #[trigger]
                offered(all, allowed).contains((id, tool)) <==> is_offered(
                self.servers@,
                allowed,
                id,
                tool,
            ) by {
                lemma_offered(all, allowed, id, tool);
                lemma_name_index(all, id);
                let place = name_index(all, id);
                if is_offered(self.servers@, allowed, id, tool) {
                    assert(all[place].1.cached_tools@.contains(tool));
                }
                if offered(all, allowed).contains((id, tool)) {
                    let k = choose|k: int|
                        0 <= k < all.len() && (#[trigger] all[k]).0@ == id
                            && all[k].1.cached_tools@.contains(tool);
                    lemma_entries_are_found(all, k);
                }
            }
        }
        tools
    }

    /// Whether a server can be asked to do something.
    pub fn check_running(&self, server_id: &str) -> (r: Result<(), McpError>)
        ensures
            match r {
                Ok(()) => self.servers@.dom().contains(server_id@)
                    && self.servers@[server_id@].running,
                Err(e) => if self.servers@.dom().contains(server_id@) {
                    !self.servers@[server_id@].running && (e matches McpError::ServerNotRunning(s)
                        && s@ == server_id@)
                } else {
                    is_unknown(e, server_id@)
                },
            },
    {
        match self.servers.get(server_id) {
            None => Err(McpError::ServerNotFound(server_id.to_owned())),
            Some(entry) => if entry.running {
                Ok(())
            } else {
                Err(McpError::ServerNotRunning(server_id.to_owned()))
            },
        }
    }

    /// Get the status of all servers.
    pub fn server_statuses(&self) -> (r: Named<ServerStatus>)
        ensures
            r.list().len() == self.servers.list().len(),
            forall|i: int|
                0 <= i < r.list().len() ==> {
                    let (id, status) = #[trigger] r.list()[i];
                    let entry = self.servers.list()[i].1;
                    id == self.servers.list()[i].0 && status == entry.status()
                },
            r@.dom() == self.servers@.dom(),
            forall|id: Seq<char>| #[trigger]
                self.servers@.dom().contains(id) ==> r@[id] == self.servers@[id].status(),
    {
        let mut r: Named<ServerStatus> = Named::new();
        let mut i: usize = 0;
        while i < self.servers.len()
            invariant
                i <= self.servers.list().len(),
                r.list().len() == i,
                forall|k: int|
                    0 <= k < i ==> {
                        let (id, status) = #[trigger] r.list()[k];
                        let entry = self.servers.list()[k].1;
                        id == self.servers.list()[k].0 && status == entry.status()
                    },
            decreases self.servers.list().len() - i,
        {
            let server = self.servers.at(i);
            let status = if server.1.running {
                ServerStatus::Running { tool_count: server.1.cached_tools.len() }
            } else {
                ServerStatus::Stopped
            };
            proof {
                let all = self.servers.list();
                assert forall|k: int| 0 <= k < r.list().len() implies (
                #[trigger] r.list()[k]).0@ != server.0@ by {
                    assert(all[k].0@ != all[i as int].0@);
                }
            }
            r.append(server.0.clone(), status);
            i = i + 1;
        }
        proof {
            let all = self.servers.list();
            let list = r.list();
            assert forall|id: Seq<char>| lookup(list, id) is Some <==> #[trigger] lookup(
                all,
                id,
            ) is Some by {
                lemma_same_names(list, all, id);
            }
            assert(r@.dom() =~= self.servers@.dom());
            assert forall|id: Seq<char>| #[trigger] self.servers@.dom().contains(id) implies r@[id]
                == self.servers@[id].status() by {
                lemma_same_names(list, all, id);
                lemma_name_index(all, id);
                lemma_name_index(list, id);
            }
        }
        r
    }

    /// Puts a new list of tools in place of the one that a running server had.
    pub fn refreshed(&mut self, server_id: &str, tools: Vec<McpToolDefinition>)
        requires
            old(self).servers@.dom().contains(server_id@),
        ensures
            final(self).servers@ == old(self).servers@.insert(
                server_id@,
                PoolEntry { cached_tools: tools, ..old(self).servers@[server_id@] },
            ),
    {
        if let Some(entry) = self.servers.remove(server_id) {
            let entry = PoolEntry {
                config: entry.config,
                running: entry.running,
                cached_tools: tools,
            };
            self.servers.insert(server_id.to_owned(), entry);
            assert(self.servers@ =~= old(self).servers@.insert(server_id@, entry));
        }
    }
}

/// The result of a call, given what the server answered.
pub fn call_result(call: &ToolCall, outcome: Result<Json, McpError>) -> (r: ToolResult)
    ensures
        r.call_id == call.id,
        match outcome {
            Ok(value) => r.output == ToolOutput::Success(value),
            Err(e) => r.output matches ToolOutput::Error(s) && s@ == e.said(),
        },
{
    let output = match outcome {
        Ok(value) => ToolOutput::Success(value),
        Err(e) => ToolOutput::Error(e.to_text()),
    };
    ToolResult { call_id: call.id.clone(), output }
}

// ---- health ------------------------------------------------------------------------------

/// What comes next in a health check.
#[derive(Debug, Clone, Copy, PartialEq, Eq, Structural)]
pub enum HealthStep {
    /// The server is healthy.
    Healthy,
    /// The server may not know pings, so it is asked for its tools.
    ListTools,
}

/// What comes next in a health check, given whether a ping was answered.
pub fn after_ping(answered: bool) -> (r: HealthStep)
    ensures
        r == (if answered {
            HealthStep::Healthy
        } else {
            HealthStep::ListTools
        }),
{
    if answered {
        HealthStep::Healthy
    } else {
        HealthStep::ListTools
    }
}

/// Check if the server is healthy, given whether it answered a ping and, if it did not, whether it
/// told its tools.
pub fn health_check(answered: bool, listed: Result<(), McpError>) -> (r: Result<(), McpError>)
    ensures
        answered ==> r is Ok,
        !answered ==> r == listed,
{
    if answered {
        Ok(())
    } else {
        listed
    }
}

/// The servers whose check failed, in the order in which they were checked.
pub open spec fn failed(checks: Seq<(String, bool)>) -> Seq<Seq<char>>
    decreases checks.len(),
{
    if checks.len() == 0 {
        Seq::empty()
    } else if checks.last().1 {
        failed(checks.drop_last())
    } else {
        failed(checks.drop_last()).push(checks.last().0@)
    }
}

/// The servers that are not healthy, given of each that runs whether it is.
pub fn unhealthy(checks: &Vec<(String, bool)>) -> (r: Vec<String>)
    ensures
        views(r@) == failed(checks@),
{
    let mut r: Vec<String> = Vec::new();
    let mut i: usize = 0;
    assert(checks@.take(0) =~= Seq::empty());
    assert(views(r@) =~= Seq::empty());
    while i < checks.len()
        invariant
            i <= checks@.len(),
            views(r@) == failed(checks@.take(i as int)),
        decreases checks@.len() - i,
    {
        let ghost before = views(r@);
        assert(checks@.take(i + 1).drop_last() =~= checks@.take(i as int));
        if !checks[i].1 {
            r.push(checks[i].0.clone());
            assert(views(r@) =~= before.push(checks@[i as int].0@));
        }
        i = i + 1;
    }
    assert(checks@.take(i as int) =~= checks@);
    r
}

// ---- the process of a server -------------------------------------------------------------

/// The program of a command, and what it is given. An empty command names no program.
pub fn split_command(command: &Vec<String>) -> (r: Result<(String, Vec<String>), McpError>)
    ensures
        match r {
            Ok((program, args)) => command@.len() > 0 && program == command@[0] && args@
                == command@.drop_first(),
            Err(e) => command@.len() == 0 && (e matches McpError::SpawnFailed(s) && s@
                == "empty command"@),
        },
{
    if command.len() == 0 {
        return Err(McpError::SpawnFailed("empty command".to_owned()));
    }
    let mut args = copy_list(command);
    let program = args.remove(0);
    assert(args@ =~= command@.drop_first());
    Ok((program, args))
}

/// Whether a variable of the environment is handed on to the process of a server.
pub open spec fn is_handed_on(key: Seq<char>) -> bool {
    key == "PATH"@ || key == "HOME"@ || key == "USER"@ || key == "LANG"@ || key == "TERM"@
}

/// The variables of the environment that are handed on to the process of a server. All others are
/// kept from it.
pub fn inherited_variables() -> (r: Vec<String>)
    ensures
        views(r@) == seq!["PATH"@, "HOME"@, "USER"@, "LANG"@, "TERM"@],
        forall|key: Seq<char>| views(r@).contains(key) <==> is_handed_on(key),
{
    let r = vec![
        "PATH".to_owned(),
        "HOME".to_owned(),
        "USER".to_owned(),
        "LANG".to_owned(),
        "TERM".to_owned(),
    ];
    proof {
        let list = views(r@);
        assert(list =~= seq!["PATH"@, "HOME"@, "USER"@, "LANG"@, "TERM"@]);
        assert forall|key: Seq<char>| list.contains(key) <==> is_handed_on(key) by {
            assert(list[0] == "PATH"@ && list[1] == "HOME"@ && list[2] == "USER"@ && list[3]
                == "LANG"@ && list[4] == "TERM"@);
        }
    }
    r
}

/// What becomes of a line that a server writes.
#[derive(Debug, Clone, Copy, PartialEq, Eq, Structural)]
pub enum LineUse {
    /// The line is blank, or is no answer, or is the answer to something else.
    Skip,
    /// The line is the answer that is waited for.
    Answer,
}

/// What becomes of a line that a server writes, given the number of the request that it answers if
/// it is an answer to one.
pub fn use_line(line: &str, answers: Option<Option<u64>>, expected_id: u64) -> (r: LineUse)
    ensures
        r == (if trimmed(line@).len() > 0 && answers == Some(Some(expected_id)) {
            LineUse::Answer
        } else {
            LineUse::Skip
        }),
{
    let text = trim(line);
    if text.as_str().is_empty() {
        return LineUse::Skip;
    }
    match answers {
        Some(Some(id)) => if id == expected_id {
            LineUse::Answer
        } else {
            LineUse::Skip
        },
        _ => LineUse::Skip,
    }
}

/// The texts among the parts of an answer.
pub open spec fn texts_of(content: Seq<Option<String>>) -> Seq<Seq<char>>
    decreases content.len(),
{
    if content.len() == 0 {
        Seq::empty()
    } else {
        let before = texts_of(content.drop_last());
        match content.last() {
            Some(s) => before.push(s@),
            None => before,
        }
    }
}

/// The value that texts stand for: one text is read as a document where it is one.
pub open spec fn value_of_texts(texts: Seq<Seq<char>>) -> JsonTree {
    if texts.len() == 1 {
        match value_read(texts[0]) {
            Ok(value) => value,
            Err(_) => JsonTree::Text(texts[0]),
        }
    } else {
        JsonTree::Text(joined(texts, "\n"@))
    }
}

/// The value that a tool gave back, given the texts of its answer and whether it says that it
/// failed.
pub fn tool_value(content: &Vec<Option<String>>, is_error: bool) -> (r: Result<Json, McpError>)
    ensures
        match r {
            Ok(value) => !is_error && value@ == value_of_texts(texts_of(content@)),
            Err(e) => is_error && (e matches McpError::Protocol(s) && s@ == "tool error: "@
                + joined(texts_of(content@), "\n"@)),
        },
{
    let mut texts: Vec<String> = Vec::new();
    let mut i: usize = 0;
    proof {
        assert(content@.take(0) =~= Seq::empty());
        assert(views(texts@) =~= Seq::empty());
    }
    while i < content.len()
        invariant
            i <= content@.len(),
            views(texts@) == texts_of(content@.take(i as int)),
        decreases content@.len() - i,
    {
        proof {
            assert(content@.take(i + 1).drop_last() =~= content@.take(i as int));
            assert(content@.take(i + 1).last() == content@[i as int]);
        }
        if let Some(s) = &content[i] {
            let ghost before = views(texts@);
            texts.push(s.clone());
            assert(views(texts@) =~= before.push(s@));
        }
        i = i + 1;
    }
    assert(content@.take(i as int) =~= content@);
    if is_error {
        return Err(McpError::Protocol(cat("tool error: ", join(&texts, "\n").as_str())));
    }
    if texts.len() == 1 {
        assert(views(texts@)[0] == texts@[0]@);
        match parse(texts[0].as_str()) {
            Ok(value) => Ok(value),
            Err(_) => Ok(Json::Text(texts[0].clone())),
        }
    } else {
        Ok(Json::Text(join(&texts, "\n")))
    }
}

/// An agent sees no tool of a server that it may not use.
pub proof fn only_allowed_servers_are_seen(
    servers: Seq<(String, PoolEntry)>,
    allowed: Seq<Seq<char>>,
    i: int,
)
    requires
        0 <= i < offered(servers, allowed).len(),
    ensures
        allowed.contains(offered(servers, allowed)[i].0),
    decreases servers.len(),
{
    if servers.len() > 0 {
        let before = offered(servers.drop_last(), allowed);
        if i < before.len() {
            only_allowed_servers_are_seen(servers.drop_last(), allowed, i);
        }
    }
}

/// Who may use a server is offered its tools once it was started, and those alone.
pub proof fn started_servers_offer_their_tools(
    servers: Map<Seq<char>, PoolEntry>,
    id: Seq<char>,
    tools: Vec<McpToolDefinition>,
    allowed: Seq<Seq<char>>,
    tool: McpToolDefinition,
)
    requires
        servers.dom().contains(id),
        allowed.contains(id),
    ensures
        is_offered(
            servers.insert(id, PoolEntry { running: true, cached_tools: tools, ..servers[id] }),
            allowed,
            id,
            tool,
        ) <==> tools@.contains(tool),
{
}

/// A server that was stopped offers nothing, and what others offer stays.
pub proof fn stopped_servers_offer_nothing(
    before: Map<Seq<char>, PoolEntry>,
    after: Map<Seq<char>, PoolEntry>,
    id: Seq<char>,
    allowed: Seq<Seq<char>>,
    other: Seq<char>,
    tool: McpToolDefinition,
)
    requires
        after.dom() == before.dom(),
        after[id].cached_tools@.len() == 0,
        after.remove(id) == before.remove(id),
    ensures
        !is_offered(after, allowed, id, tool),
        other != id ==> (is_offered(after, allowed, other, tool) <==> is_offered(
            before,
            allowed,
            other,
            tool,
        )),
{
    if other != id && before.dom().contains(other) {
        assert(after.remove(id)[other] == after[other]);
        assert(before.remove(id)[other] == before[other]);
    }
}

/// What servers offer one after the other is what they offer together, in their order.
pub proof fn servers_are_asked_in_order(
    before: Seq<(String, PoolEntry)>,
    after: Seq<(String, PoolEntry)>,
    allowed: Seq<Seq<char>>,
)
    ensures
        offered(before + after, allowed) == offered(before, allowed) + offered(after, allowed),
    decreases after.len(),
{
    if after.len() == 0 {
        assert(before + after =~= before);
        assert(offered(before, allowed) + offered(after, allowed) =~= offered(before, allowed));
    } else {
        let all = before + after;
        assert(all.drop_last() =~= before + after.drop_last());
        servers_are_asked_in_order(before, after.drop_last(), allowed);
        assert(offered(all, allowed) =~= offered(before, allowed) + offered(after, allowed));
    }
}

/// A server that the agent may use offers all its tools, in their order; any other offers none.
pub proof fn allowed_servers_offer_all_their_tools(
    id: String,
    entry: PoolEntry,
    allowed: Seq<Seq<char>>,
    i: int,
)
    ensures
        ({
            let tools = offered(seq![(id, entry)], allowed);
            &&& allowed.contains(id@) ==> tools.len() == entry.cached_tools@.len() && (0 <= i
                < tools.len() ==> tools[i].0 == id@ && tools[i].1 == entry.cached_tools@[i])
            &&& !allowed.contains(id@) ==> tools.len() == 0
        }),
{
    let one = seq![(id, entry)];
    assert(one.drop_last() =~= Seq::empty());
    assert(offered(one.drop_last(), allowed) =~= Seq::empty());
    assert(one.last() == (id, entry));
}

/// A tool is offered under its server's name, with all that is known of it.
pub proof fn tools_are_offered_as_they_are(
    spec: ToolSpec,
    server_id: Seq<char>,
    tool: McpToolDefinition,
)
    requires
        is_spec_of(spec, server_id, tool),
    ensures
        spec.id@ == "mcp:"@ + server_id + ":"@ + tool.name@,
        spec.name@ == tool.name@,
        spec.description@ == tool.description@,
        spec.parameters_schema@ == tool.input_schema@,
        spec.source matches ToolSource::Mcp { server_id: s } && s@ == server_id,
{
}

/// There is a description for each tool that is offered, in the same place.
pub proof fn each_tool_is_described(
    specs: Seq<ToolSpec>,
    tools: Seq<(Seq<char>, McpToolDefinition)>,
    i: int,
)
    requires
        are_specs_of(specs, tools),
        0 <= i < tools.len(),
    ensures
        specs.len() == tools.len(),
        specs[i].name@ == tools[i].1.name@,
        specs[i].id@ == "mcp:"@ + tools[i].0 + ":"@ + tools[i].1.name@,
{
}

/// A server that runs is not started again; one of a child process is started by its own command,
/// and cannot be without one; servers of other kinds are not started.
pub proof fn servers_are_started_by_their_command(
    id: Seq<char>,
    entry: PoolEntry,
    r: Result<StartPlan, McpError>,
)
    requires
        start_plan(id, entry, r),
    ensures
        entry.running ==> r == Ok::<StartPlan, McpError>(StartPlan::Running),
        !entry.running && entry.config.kind is ChildProcess && entry.config.command is Some ==> (
        r matches Ok(StartPlan::Spawn { command }) && command@ == entry.config.command->0@),
        !entry.running && entry.config.kind is ChildProcess && entry.config.command is None ==> (
        r matches Err(McpError::SpawnFailed(s)) && s@ == "child_process server '"@ + id
            + "' has no command"@),
        !entry.running && !(entry.config.kind is ChildProcess) ==> r == Ok::<StartPlan, McpError>(
            StartPlan::Unsupported,
        ),
{
}

/// A server says whether it runs, and then how many tools it has; one that is not known is named.
pub proof fn servers_say_how_they_are(entry: PoolEntry, e: McpError, id: Seq<char>)
    ensures
        entry.running ==> (entry.status() matches ServerStatus::Running { tool_count } && tool_count
            == entry.cached_tools@.len() as usize),
        !entry.running ==> entry.status() is Stopped,
        is_unknown(e, id) ==> e.said() == "server not found: "@ + id,
{
}

/// What is said of errors names what they are about.
pub proof fn server_errors_say_what_went_wrong(s: String)
    ensures
        McpError::ServerNotFound(s).said() == "server not found: "@ + s@,
        McpError::ServerNotRunning(s).said() == "server not running: "@ + s@,
        McpError::Transport(s).said() == "transport error: "@ + s@,
        McpError::Protocol(s).said() == "protocol error: "@ + s@,
        McpError::ToolNotFound(s).said() == "tool not found: "@ + s@,
        McpError::Io(s).said() == "io error: "@ + s@,
        McpError::Json(s).said() == "json error: "@ + s@,
        McpError::SpawnFailed(s).said() == "server spawn failed: "@ + s@,
        McpError::Timeout.said() == "timeout waiting for server response"@,
{
}

/// Each server whose check failed is named, in the order of the checks, and no other.
pub proof fn failed_checks_name_their_servers(
    before: Seq<(String, bool)>,
    check: (String, bool),
    i: int,
)
    ensures
        check.1 ==> failed(before.push(check)) == failed(before),
        !check.1 ==> failed(before.push(check)) == failed(before).push(check.0@),
        failed(Seq::empty()).len() == 0,
{
    assert(before.push(check).drop_last() =~= before);
}

/// The texts of a result are taken in their order, and what is no text is left out.
pub proof fn texts_are_taken_in_order(before: Seq<Option<String>>, next: Option<String>)
    ensures
        next matches Some(s) ==> texts_of(before.push(next)) == texts_of(before).push(s@),
        next is None ==> texts_of(before.push(next)) == texts_of(before),
        texts_of(Seq::empty()).len() == 0,
{
    assert(before.push(next).drop_last() =~= before);
}

/// A result of one text is the value that the text writes down, or else the text; several texts are
/// one, each on a line of its own.
pub proof fn results_are_read_from_their_texts(texts: Seq<Seq<char>>)
    ensures
        texts.len() == 1 ==> (match value_read(texts[0]) {
            Ok(value) => value_of_texts(texts) == value,
            Err(_) => value_of_texts(texts) == JsonTree::Text(texts[0]),
        }),
        texts.len() == 0 ==> value_of_texts(texts) == JsonTree::Text(Seq::empty()),
        texts.len() > 1 ==> value_of_texts(texts) == JsonTree::Text(joined(texts, seq!['\n'])),
{
    reveal_strlit("\n");
    assert("\n"@ =~= seq!['\n']);
}

/// The variables that a server gets from its surroundings.
pub proof fn few_variables_are_handed_on(key: Seq<char>)
    ensures
        is_handed_on(key) <==> (key == "PATH"@ || key == "HOME"@ || key == "USER"@ || key == "LANG"@
            || key == "TERM"@),
{
}

} // verus!

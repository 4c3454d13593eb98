use neuromancer::a2a::handlers::{
    cancel_task, get_task_response, list_tasks_response, may_subscribe, message_send_response,
    submit_failed, task_for_message,
};
use neuromancer::a2a::state::{map_report_status, A2aState};
use neuromancer::a2a::subscribers::Subscribers;
use neuromancer::a2a::types::{
    A2aMessage, A2aTaskStatus, AgentCard, MessageSendRequest, Part, StreamEvent,
};
use neuromancer::agent::SubAgentReport;
use neuromancer::config::{McpServerConfig, McpServerKind};
use neuromancer::conversation::ConversationContext;
use neuromancer::error::{NeuromancerError, ToolError};
use neuromancer::json::Json;
use neuromancer::mcp::{
    after_ping, call_result, health_check, inherited_variables, split_command, tool_value,
    unhealthy, use_line, HealthStep, LineUse, McpClientPool, McpError, McpToolDefinition,
    ServerStatus, StartPlan,
};
use neuromancer::memory::{MemoryItem, MemoryKind, MemoryQuery, MemorySource};
use neuromancer::memory_store::{
    check_partition_access, empty_page, may_delete, page_from, plan_query, read_item, MemoryRow,
};
use neuromancer::named::Named;
use neuromancer::session::InMemorySessionStore;
use neuromancer::task::{Artifact, ArtifactKind};
use neuromancer::thread::{ChatMessage, TruncationStrategy};
use neuromancer::time::Timestamp;
use neuromancer::tool::{AgentContext, ToolCall, ToolOutput};

fn context(partitions: &[&str]) -> AgentContext {
    AgentContext {
        agent_id: "test-agent".to_string(),
        task_id: 1,
        allowed_tools: vec![],
        allowed_mcp_servers: vec!["files".to_string()],
        allowed_peer_agents: vec![],
        allowed_secrets: vec![],
        allowed_memory_partitions: partitions.iter().map(|p| p.to_string()).collect(),
    }
}

// ---- memories ------------------------------------------------------------------------

fn fact(partition: &str, content: &str) -> MemoryItem {
    MemoryItem::new(
        partition.to_string(),
        MemoryKind::Fact,
        content.to_string(),
    )
}

#[test]
fn a_memory_is_read_back_from_its_row() {
    let item = fact("workspace:default", "the user likes \"dark\" mode")
        .with_tags(vec!["preference".to_string(), "a \"b\"".to_string()])
        .with_source(MemorySource::Agent)
        .with_ttl(Timestamp {
            secs: 4_000_000_000,
            nanos: 5_000_000,
        });
    let row = MemoryRow::from_item(&item);
    assert_eq!(row.kind, "fact");
    assert_eq!(row.tags, r#"["preference","a \"b\""]"#);
    assert!(row.created_at.contains('T'));
    assert_eq!(row.expires_at.as_deref(), Some("2096-10-02T07:06:40.005+00:00"));
    let back = row.to_memory_item().expect("readable");
    assert_eq!(back.id, item.id);
    assert_eq!(back.content, item.content);
    assert_eq!(back.tags, item.tags);
    assert_eq!(back.source, MemorySource::Agent);
    assert_eq!(back.created_at, item.created_at);
    assert_eq!(back.expires_at, item.expires_at);
    assert_eq!(back.metadata, Json::Null);
}

#[test]
fn broken_rows_say_what_is_wrong() {
    let mut row = MemoryRow::from_item(&fact("p", "x"));
    row.id = "nonsense".to_string();
    assert!(row.to_memory_item().unwrap_err().starts_with("invalid uuid: "));
    let mut row = MemoryRow::from_item(&fact("p", "x"));
    row.kind = "rumor".to_string();
    assert!(row.to_memory_item().unwrap_err().contains("rumor"));
    let mut row = MemoryRow::from_item(&fact("p", "x"));
    row.tags = "{}".to_string();
    assert!(row.to_memory_item().unwrap_err().starts_with("invalid tags: "));
    let mut row = MemoryRow::from_item(&fact("p", "x"));
    row.created_at = "yesterday".to_string();
    assert!(row
        .to_memory_item()
        .unwrap_err()
        .starts_with("invalid created_at: "));
}

#[test]
fn partitions_are_guarded() {
    let ctx = context(&["workspace:default"]);
    assert!(check_partition_access(&ctx, "workspace:default").is_ok());
    assert!(check_partition_access(&ctx, "secret:partition").is_err());
    let row = MemoryRow::from_item(&fact("secret:partition", "x"));
    assert!(read_item(&ctx, Some(row)).is_err());
    assert!(read_item(&ctx, None).unwrap().is_none());
    assert!(may_delete(&ctx, &None).is_ok());
    assert!(may_delete(&ctx, &Some("secret:partition".to_string())).is_err());
}

#[test]
fn queries_are_put_into_words() {
    let ctx = context(&["a", "b"]);
    let mut q = MemoryQuery::default();
    let plan = plan_query(&ctx, &q).unwrap().unwrap();
    assert_eq!(
        plan.count_sql,
        "SELECT COUNT(*) as cnt FROM memory_items WHERE partition IN (?, ?)"
    );
    assert_eq!(plan.bind_values, vec!["a", "b"]);
    assert_eq!(plan.limit, 100);

    q.partition = Some("a".to_string());
    q.kind = Some(MemoryKind::ToolResult);
    q.text_search = Some("dark".to_string());
    q.limit = 2;
    q.offset = 4;
    let plan = plan_query(&ctx, &q).unwrap().unwrap();
    assert!(plan
        .data_sql
        .contains("WHERE partition = ? AND kind = ? AND content LIKE ? ORDER BY"));
    assert_eq!(plan.bind_values, vec!["a", "tool_result", "%dark%"]);
    assert_eq!((plan.limit, plan.offset), (2, 4));

    q.partition = Some("c".to_string());
    assert!(plan_query(&ctx, &q).is_err());
    assert!(plan_query(&context(&[]), &MemoryQuery::default())
        .unwrap()
        .is_none());
}

#[test]
fn pages_tell_whether_there_is_more() {
    let mut q = MemoryQuery::default();
    q.limit = 2;
    let rows = || {
        vec![
            MemoryRow::from_item(&fact("p", "one").with_tags(vec!["ui".to_string()])),
            MemoryRow::from_item(&fact("p", "two")),
        ]
    };
    let page = page_from(rows(), 5, &q);
    assert_eq!(page.items.len(), 2);
    assert_eq!(page.total, 5);
    assert!(page.has_more);
    q.offset = 3;
    assert!(!page_from(rows(), 5, &q).has_more);
    q.tags = vec!["ui".to_string(), "other".to_string()];
    assert_eq!(page_from(rows(), 5, &q).items[0].content, "one");
    assert_eq!(page_from(rows(), 5, &q).items.len(), 1);
}

// ---- sessions ------------------------------------------------------------------------

#[test]
fn saved_conversations_are_found() {
    let at = |secs| Timestamp { secs, nanos: 0 };
    let fresh = || ConversationContext::new(10, TruncationStrategy::Strict);
    let mut store = InMemorySessionStore::new();
    assert!(store.get(1).is_none());
    let session = store.load_or_create(1, fresh(), at(1));
    assert_eq!(session.created_at, at(1));
    let mut talk = fresh();
    talk.add_message(ChatMessage::user("hi"));
    store.save_conversation(1, talk, at(2));
    let session = store.load_or_create(1, fresh(), at(3));
    assert_eq!(session.conversation.messages.len(), 1);
    assert_eq!((session.created_at, session.updated_at), (at(1), at(2)));
    assert!(store.get(2).is_none());
}

// ---- tasks of other agents -----------------------------------------------------------

fn card() -> AgentCard {
    AgentCard {
        name: "n".to_string(),
        description: "d".to_string(),
        url: "u".to_string(),
        provider: None,
        version: "1".to_string(),
        capabilities: vec![],
        skills: vec![],
        default_input_modes: None,
        default_output_modes: None,
    }
}

fn message(text: &str) -> A2aMessage {
    A2aMessage {
        role: "user".to_string(),
        parts: vec![Part::Text {
            text: text.to_string(),
        }],
        metadata: None,
    }
}

fn send(task_id: Option<&str>) -> MessageSendRequest {
    MessageSendRequest {
        message: message("hello"),
        task_id: task_id.map(|id| id.to_string()),
        configuration: None,
    }
}

#[test]
fn messages_make_tasks_or_name_them() {
    let mut state = A2aState::new(card());
    let request = task_for_message(&mut state, send(None)).expect("a new task");
    assert!(request.task_id.is_none());
    assert_eq!(request.a2a_task_id.len(), 36);
    let id = request.a2a_task_id;
    assert_eq!(
        message_send_response(&state, &id).unwrap().status,
        A2aTaskStatus::Working
    );
    let again = task_for_message(&mut state, send(Some(&id))).expect("the same task");
    assert_eq!(again.a2a_task_id, id);
    assert_eq!(list_tasks_response(&state).tasks.len(), 1);

    let refusal = task_for_message(&mut state, send(Some("nobody"))).unwrap_err();
    assert_eq!(refusal.status, 404);
    assert_eq!(refusal.body.code, "task_not_found");
    assert!(may_subscribe(&state, "nobody").is_err());
    assert!(may_subscribe(&state, &id).is_ok());
    assert_eq!(message_send_response(&state, "nobody").unwrap_err().status, 500);
    assert_eq!(submit_failed("full").body.message, "full");
}

#[test]
fn a_task_is_cancelled_once() {
    let mut state = A2aState::new(card());
    let at = Timestamp { secs: 9, nanos: 0 };
    state.add_task("t".to_string(), message("x"), at);
    assert_eq!(
        cancel_task(&mut state, "t", at).unwrap().status,
        A2aTaskStatus::Failed
    );
    let refusal = cancel_task(&mut state, "t", at).unwrap_err();
    assert_eq!(refusal.status, 409);
    assert_eq!(refusal.body.code, "task_terminal");
    assert_eq!(cancel_task(&mut state, "u", at).unwrap_err().status, 404);
}

#[test]
fn reports_update_tasks() {
    let mut state = A2aState::new(card());
    let at = Timestamp { secs: 9, nanos: 0 };
    state.add_task("t".to_string(), message("x"), at);
    let report = SubAgentReport::Completed {
        task_id: 1,
        thread_id: None,
        artifacts: vec![Artifact {
            kind: ArtifactKind::Text,
            name: "answer".to_string(),
            content: "42".to_string(),
            mime_type: None,
        }],
        summary: "done".to_string(),
    };
    assert_eq!(map_report_status(&report), A2aTaskStatus::Completed);
    state.update_from_report("t", &report, at);
    let response = get_task_response(&state, "t").unwrap();
    assert_eq!(response.status, A2aTaskStatus::Completed);
    assert_eq!(response.artifacts[0].name, "answer");
    assert!(matches!(
        &response.artifacts[0].parts[0],
        Part::Text { text } if text == "42"
    ));
    assert_eq!(response.status.as_str(), "completed");
}

// ---- servers of tools ----------------------------------------------------------------

fn server(kind: McpServerKind, command: Option<Vec<String>>) -> McpServerConfig {
    McpServerConfig {
        kind,
        command,
        url: None,
        sandbox: None,
        allowed_roots: None,
        env: Named::new(),
    }
}

fn tool(name: &str) -> McpToolDefinition {
    McpToolDefinition {
        name: name.to_string(),
        description: "d".to_string(),
        input_schema: Json::no_fields(),
    }
}

#[test]
fn servers_start_offer_and_stop() {
    let mut configs = Named::new();
    configs.insert(
        "files".to_string(),
        server(McpServerKind::ChildProcess, Some(vec!["run".to_string()])),
    );
    configs.insert(
        "web".to_string(),
        server(McpServerKind::ChildProcess, None),
    );
    configs.insert("far".to_string(), server(McpServerKind::Remote, None));
    let mut pool = McpClientPool::new(configs);
    assert!(matches!(
        pool.plan_start("files"),
        Ok(StartPlan::Spawn { command }) if command == vec!["run"]
    ));
    assert!(matches!(pool.plan_start("web"), Err(McpError::SpawnFailed(_))));
    assert!(matches!(pool.plan_start("far"), Ok(StartPlan::Unsupported)));
    assert!(matches!(
        pool.plan_start("gone"),
        Err(McpError::ServerNotFound(_))
    ));
    assert!(pool.check_running("files").is_err());

    pool.started("files", vec![tool("read"), tool("write")]);
    pool.started("web", vec![tool("get")]);
    assert!(pool.check_running("files").is_ok());
    assert!(matches!(pool.plan_start("files"), Ok(StartPlan::Running)));
    let seen = pool.list_tools_for_agent(&context(&[]));
    let names: Vec<&str> = seen.iter().map(|spec| spec.name.as_str()).collect();
    assert_eq!(names, vec!["read", "write"]);

    pool.refreshed("files", vec![tool("read")]);
    assert_eq!(
        pool.server_statuses().get("files"),
        Some(&ServerStatus::Running { tool_count: 1 })
    );
    assert!(matches!(pool.stopped("files"), Ok(true)));
    assert!(matches!(pool.stopped("files"), Ok(false)));
    assert!(pool.list_tools_for_agent(&context(&[])).is_empty());
}

#[test]
fn lines_of_servers_are_sorted_out() {
    assert_eq!(use_line("  \n", Some(Some(3)), 3), LineUse::Skip);
    assert_eq!(use_line("{}", None, 3), LineUse::Skip);
    assert_eq!(use_line("{}", Some(None), 3), LineUse::Skip);
    assert_eq!(use_line("{}", Some(Some(2)), 3), LineUse::Skip);
    assert_eq!(use_line("{}", Some(Some(3)), 3), LineUse::Answer);
}

#[test]
fn answers_of_tools_are_values() {
    let text = |s: &str| Some(s.to_string());
    assert_eq!(
        tool_value(&vec![text("[1, \"a\"]"), None], false).unwrap(),
        Json::no_items()
            .and(Json::Number("1".to_string()))
            .and(Json::Text("a".to_string()))
    );
    assert_eq!(
        tool_value(&vec![text("hello world")], false).unwrap(),
        Json::Text("hello world".to_string())
    );
    assert_eq!(
        tool_value(&vec![text("a"), text("b")], false).unwrap(),
        Json::Text("a\nb".to_string())
    );
    let err = tool_value(&vec![text("a"), text("b")], true).unwrap_err();
    assert_eq!(err.to_text(), "protocol error: tool error: a\nb");
    let call = ToolCall {
        id: "call-1".to_string(),
        tool_id: "read".to_string(),
        arguments: Json::Null,
    };
    let result = call_result(&call, Err(McpError::Timeout));
    assert!(matches!(
        result.output,
        ToolOutput::Error(said) if said == "timeout waiting for server response"
    ));
}

#[test]
fn servers_inherit_little() {
    assert_eq!(
        inherited_variables(),
        vec!["PATH", "HOME", "USER", "LANG", "TERM"]
    );
    assert!(split_command(&vec![]).is_err());
    let (program, args) =
        split_command(&vec!["run".to_string(), "fast".to_string()]).expect("a program");
    assert_eq!(program, "run");
    assert_eq!(args, vec!["fast"]);
}

// ---- more of the tasks -------------------------------------------------------------------

#[test]
fn a_task_is_linked_and_its_card_replaced() {
    let mut state = A2aState::new(card());
    assert_eq!(state.agent_card().name, "n");
    let mut other = card();
    other.name = "other".to_string();
    state.update_agent_card(other);
    assert_eq!(state.agent_card().name, "other");

    let id = state.create_task(message("hello"));
    assert_eq!(state.get_task(&id).map(|task| task.internal_task_id), Some(None));
    state.link_internal_task(&id, 42);
    let task = state.get_task(&id).expect("the task");
    assert_eq!(task.internal_task_id, Some(42));
    assert_eq!(task.history.len(), 1);
    state.link_internal_task("nobody", 7);
    assert_eq!(state.list_tasks().len(), 1);
    let at = Timestamp { secs: 9, nanos: 0 };
    state.set_task_status(&id, A2aTaskStatus::InputRequired, at);
    let task = state.get_task(&id).expect("the task");
    assert_eq!(task.status, A2aTaskStatus::InputRequired);
    assert_eq!(task.updated_at, at);
}

#[test]
fn an_empty_page_has_nothing() {
    let page = empty_page();
    assert!(page.items.is_empty());
    assert_eq!(page.total, 0);
    assert!(!page.has_more);
}

#[test]
fn faults_of_servers_are_faults_of_tools() {
    let error = McpError::ServerNotFound("files".to_string());
    let told = error.to_text();
    assert!(matches!(
        error.into_neuromancer(),
        NeuromancerError::Tool(ToolError::McpServerDown { server_id }) if server_id == told
    ));
}

#[test]
fn streams_end_with_their_task() {
    let mut followed = Subscribers::new();
    let a = followed.subscribe("a").expect("a number");
    let b = followed.subscribe("b").expect("a number");
    let c = followed.subscribe("a").expect("a number");
    assert_eq!(followed.following("a"), vec![a, c]);
    let told = followed.notify_report(
        "b",
        &SubAgentReport::Failed {
            task_id: 1,
            thread_id: None,
            error: "broken".to_string(),
            partial_result: None,
        },
    );
    assert_eq!(told.to, vec![b]);
    assert!(matches!(
        told.event,
        StreamEvent::StatusUpdate { task_id, status: A2aTaskStatus::Failed } if task_id == "b"
    ));
    let told = followed.notify_done("a");
    assert_eq!(told.to, vec![a, c]);
    assert!(matches!(told.event, StreamEvent::Done { task_id } if task_id == "a"));
    assert!(followed.following("a").is_empty());
    assert!(followed.notify_done("a").to.is_empty());
    assert_eq!(followed.following("b"), vec![b]);
    let d = followed.subscribe("a").expect("a number");
    assert!(![a, b, c].contains(&d));
}

#[test]
fn servers_without_pings_are_asked_for_their_tools() {
    assert_eq!(after_ping(true), HealthStep::Healthy);
    assert_eq!(after_ping(false), HealthStep::ListTools);
    let gone = || Err(McpError::Transport("gone".to_string()));
    assert!(health_check(true, gone()).is_ok());
    assert!(health_check(false, Ok(())).is_ok());
    assert!(matches!(health_check(false, gone()), Err(McpError::Transport(_))));
    let checks = vec![
        ("a".to_string(), false),
        ("b".to_string(), true),
        ("c".to_string(), false),
    ];
    assert_eq!(unhealthy(&checks), vec!["a".to_string(), "c".to_string()]);
}

use neuromancer::agent::{
    AgentCapabilities, AgentConfig, AgentHealthConfig, AgentMode, AgentModelConfig,
    SubAgentReport,
};
use neuromancer::config::ModelSlotConfig;
use neuromancer::conversation::{ConversationContext, PromptMessage};
use neuromancer::error::{AgentError, LlmError, NeuromancerError};
use neuromancer::json::Json;
use neuromancer::llm::{
    render_request_debug, request_failed, response_from, split_prompt_and_history, truncate_debug,
    AssistantPart, LlmResponse, MockLlmClient,
};
use neuromancer::model_router::ModelRouter;
use neuromancer::named::Named;
use neuromancer::runtime::helpers::{
    available_tool_names, specs_to_rig_definitions, truncate_summary,
};
use neuromancer::runtime::recovery::{extract_attempted_tool_name, is_invalid_tool_call_reason};
use neuromancer::runtime::{
    execute_tool_call, handles_to_resolve, resolve_secret_handles, secret_usage, AgentRuntime,
    Next, Recovery, Thought,
};
use neuromancer::task::{Task, TaskOutput, TaskState};
use neuromancer::thread::{ChatMessage, MessageContent, MessageRole, TruncationStrategy};
use neuromancer::time::{Duration, Timestamp};
use neuromancer::tool::{AgentContext, ToolCall, ToolOutput, ToolResult, ToolSource, ToolSpec};
use neuromancer::trigger::TriggerSource;

// ---- model slots ---------------------------------------------------------------------

fn slot(provider: &str, model: &str) -> ModelSlotConfig {
    ModelSlotConfig {
        provider: provider.to_string(),
        model: model.to_string(),
        base_url: None,
        tool_call_retry_limit: 1,
    }
}

fn make_router() -> ModelRouter {
    let mut slots = Named::new();
    slots.insert("planner".to_string(), slot("openai", "gpt-4o"));
    slots.insert("executor".to_string(), slot("openai", "gpt-4o"));
    slots.insert("browser".to_string(), slot("anthropic", "sonnet"));
    ModelRouter::new(slots)
}

#[test]
fn resolve_existing_slot() {
    let router = make_router();
    let cfg = router.resolve("planner").unwrap();
    assert_eq!(cfg.provider, "openai");
    assert_eq!(cfg.model, "gpt-4o");
}

#[test]
fn resolve_missing_slot_errors() {
    let router = make_router();
    assert!(router.resolve("nonexistent").is_err());
}

#[test]
fn resolve_for_agent_with_override() {
    let router = make_router();
    let agent_models = AgentModelConfig {
        planner: Some("planner".into()),
        executor: Some("browser".into()), // override executor to browser slot
        verifier: None,
    };
    let cfg = router.resolve_for_agent("executor", &agent_models).unwrap();
    assert_eq!(cfg.provider, "anthropic");
}

#[test]
fn a_role_without_a_slot_of_its_own_is_a_slot() {
    let router = make_router();
    let none = AgentModelConfig::default();
    assert_eq!(
        router.resolve_for_agent("browser", &none).unwrap().provider,
        "anthropic"
    );
    assert!(router.resolve_for_agent("verifier", &none).is_err());
    assert!(router.has_slot("planner"));
    assert!(!router.has_slot("verifier"));
    assert_eq!(router.slot_names().len(), 3);
}

// ---- conversations -------------------------------------------------------------------

fn call(id: &str, tool_id: &str, arguments: Json) -> ToolCall {
    ToolCall {
        id: id.to_string(),
        tool_id: tool_id.to_string(),
        arguments,
    }
}

fn success(call_id: &str) -> ToolResult {
    ToolResult {
        call_id: call_id.to_string(),
        output: ToolOutput::Success(Json::no_fields().with("ok", Json::Bool(true))),
    }
}

#[test]
fn add_messages_tracks_tokens() {
    let mut ctx = ConversationContext::new(1000, TruncationStrategy::Strict);
    ctx.add_message(ChatMessage::system("You are a helpful assistant."));
    ctx.add_message(ChatMessage::user("Hello!"));
    assert!(ctx.token_count() > 0);
    assert_eq!(ctx.messages.len(), 2);
}

#[test]
fn strict_truncation_drops_oldest_non_system() {
    let mut ctx = ConversationContext::new(10, TruncationStrategy::Strict);
    ctx.add_message(ChatMessage::system("sys"));
    ctx.add_message(ChatMessage::user(&"a]".repeat(100)));
    ctx.add_message(ChatMessage::user("recent"));

    ctx.maybe_truncate();
    // System message should be preserved
    assert!(ctx.messages.iter().any(|m| m.role == MessageRole::System));
}

#[test]
fn sliding_window_keeps_last_n() {
    let mut ctx = ConversationContext::new(10, TruncationStrategy::SlidingWindow { keep_last: 1 });
    ctx.add_message(ChatMessage::system("sys"));
    ctx.add_message(ChatMessage::user(&"old".repeat(100)));
    ctx.add_message(ChatMessage::user("new"));

    ctx.maybe_truncate();
    // Should have system + 1 recent
    let non_sys: Vec<_> = ctx
        .messages
        .iter()
        .filter(|m| m.role != MessageRole::System)
        .collect();
    assert_eq!(non_sys.len(), 1);
}

#[test]
fn strict_truncation_goes_on_until_the_rest_fits() {
    let mut ctx = ConversationContext::new(10, TruncationStrategy::Strict);
    ctx.add_message(ChatMessage::system("sys"));
    ctx.add_message(ChatMessage::user(&"a]".repeat(100)));
    ctx.add_message(ChatMessage::user("recent"));
    ctx.maybe_truncate();
    assert_eq!(ctx.messages.len(), 2);
    assert!(ctx.token_count() <= 10);
    assert!(matches!(&ctx.messages[1].content, MessageContent::Text(text) if text == "recent"));
    assert_eq!(ctx.system_prompt(), Some("sys".to_string()));
}

#[test]
fn to_rig_messages_converts_correctly() {
    let mut ctx = ConversationContext::new(10000, TruncationStrategy::Strict);
    ctx.add_message(ChatMessage::system("System prompt"));
    ctx.add_message(ChatMessage::user("Hello"));
    ctx.add_message(ChatMessage::assistant_text("Hi there"));

    let rig_msgs = ctx.to_rig_messages();
    // System messages are not included in rig messages (handled via system prompt)
    assert_eq!(rig_msgs.len(), 2);
}

#[test]
fn to_rig_messages_keeps_multi_tool_calls_in_one_assistant_message() {
    let mut ctx = ConversationContext::new(10000, TruncationStrategy::Strict);
    ctx.add_message(ChatMessage::system("System prompt"));
    ctx.add_message(ChatMessage::assistant_tool_calls(vec![
        call("call-1", "list_agents", Json::no_fields()),
        call(
            "call-2",
            "read_config",
            Json::no_fields().with("section", Json::Text("orchestrator".to_string())),
        ),
    ]));

    let rig_msgs = ctx.to_rig_messages();
    assert_eq!(rig_msgs.len(), 1);
    match &rig_msgs[0] {
        PromptMessage::ToolCalls(content) => assert_eq!(content.len(), 2),
        _ => panic!("expected assistant message"),
    }
}

#[test]
fn to_rig_messages_encodes_each_tool_result_as_tool_response_message() {
    let mut ctx = ConversationContext::new(10000, TruncationStrategy::Strict);
    ctx.add_message(ChatMessage::system("System prompt"));
    ctx.add_message(ChatMessage::assistant_tool_calls(vec![
        call("call-1", "list_agents", Json::no_fields()),
        call("call-2", "read_config", Json::no_fields()),
    ]));
    ctx.add_message(ChatMessage::tool_result(success("call-1")));
    ctx.add_message(ChatMessage::tool_result(success("call-2")));

    let rig_msgs = ctx.to_rig_messages();
    assert_eq!(rig_msgs.len(), 3);

    match &rig_msgs[1] {
        PromptMessage::ToolResult { call_id, text } => {
            assert_eq!(call_id, "call-1");
            assert_eq!(text, "{\"ok\":true}");
        }
        _ => panic!("expected first tool response as user tool_result"),
    }

    match &rig_msgs[2] {
        PromptMessage::ToolResult { call_id, .. } => assert_eq!(call_id, "call-2"),
        _ => panic!("expected second tool response as user tool_result"),
    }
}

// ---- what the model gets and gives ---------------------------------------------------

#[test]
fn split_prompt_uses_last_user_text_as_prompt() {
    let messages = vec![
        PromptMessage::Assistant("hello".to_string()),
        PromptMessage::User("what now".to_string()),
    ];

    let (prompt, history) = split_prompt_and_history(messages);
    assert_eq!(prompt, "what now");
    assert_eq!(history.len(), 1);
}

#[test]
fn split_prompt_keeps_tool_result_in_history() {
    let messages = vec![
        PromptMessage::User("question".to_string()),
        PromptMessage::ToolCalls(vec![call("call-1", "list_agents", Json::no_fields())]),
        PromptMessage::ToolResult {
            call_id: "call-1".to_string(),
            text: "[]".to_string(),
        },
    ];

    let (prompt, history) = split_prompt_and_history(messages);
    assert_eq!(prompt, "");
    assert_eq!(history.len(), 3);
}

#[test]
fn an_answer_has_its_last_text_and_all_its_calls() {
    let response = response_from(vec![
        AssistantPart::Text("first".to_string()),
        AssistantPart::ToolCall(call("call-1", "search", Json::Null)),
        AssistantPart::Other,
        AssistantPart::Text("second".to_string()),
        AssistantPart::ToolCall(call("call-2", "search", Json::Null)),
    ]);
    assert_eq!(response.text.as_deref(), Some("second"));
    assert_eq!(response.tool_calls.len(), 2);
    assert!(response.has_tool_calls());
    assert!(!response.is_text_only());
}

#[test]
fn long_requests_are_cut_in_errors() {
    assert_eq!(truncate_debug("abc", 3), "abc");
    let cut = truncate_debug("abcdef", 3);
    assert!(cut.starts_with("abc"));
    assert!(cut.len() > 3);
    let err = request_failed("boom", "{}");
    assert!(matches!(
        &err,
        NeuromancerError::Llm(LlmError::InvalidResponse { reason })
            if reason == "boom\nrequest_debug: {}"
    ));
}

#[test]
fn a_mock_model_runs_out_of_answers() {
    let mut llm = MockLlmClient::new(vec![]);
    assert_eq!(
        llm.complete().text.as_deref(),
        Some("No more mock responses")
    );
}

// ---- runs ----------------------------------------------------------------------------

enum Answer {
    Response(LlmResponse),
    Error(NeuromancerError),
}

fn text_response(text: &str, prompt_tokens: u32, completion_tokens: u32) -> LlmResponse {
    LlmResponse {
        text: Some(text.to_string()),
        tool_calls: vec![],
        prompt_tokens,
        completion_tokens,
    }
}

fn test_config() -> AgentConfig {
    AgentConfig {
        id: "test-agent".into(),
        mode: AgentMode::Inproc,
        image: None,
        models: AgentModelConfig::default(),
        capabilities: AgentCapabilities::default(),
        health: AgentHealthConfig::default(),
        system_prompt: "You are a test agent.".into(),
        max_iterations: 5,
    }
}

fn invalid_tool_call_error(tool_name: &str) -> NeuromancerError {
    NeuromancerError::Llm(LlmError::InvalidResponse {
        reason: format!(
            "Tool call validation failed: attempted to call tool '{tool_name}' which was not in request.tools"
        ),
    })
}

fn tool_outcome(call: &ToolCall) -> Result<ToolResult, NeuromancerError> {
    Ok(ToolResult {
        call_id: call.id.clone(),
        output: ToolOutput::Success(
            Json::no_fields().with("result", Json::Text("ok".to_string())),
        ),
    })
}

const AT: Timestamp = Timestamp { secs: 0, nanos: 0 };

fn execute(
    runtime: &AgentRuntime,
    task: &mut Task,
    mut answers: Vec<Answer>,
) -> (Result<TaskOutput, NeuromancerError>, Vec<SubAgentReport>) {
    let mut reports = vec![];
    let mut run = runtime.begin(task, &vec![]);
    loop {
        match runtime.think(&mut run) {
            Thought::GiveUp { stuck, error } => {
                reports.push(stuck);
                reports.push(runtime.give_up(task, &error));
                return (Err(NeuromancerError::Agent(error)), reports);
            }
            Thought::Ask { .. } => {}
        }
        let response = match answers.remove(0) {
            Answer::Response(response) => response,
            Answer::Error(err) => match runtime.recover(&mut run, err) {
                Recovery::Again { report } => {
                    reports.push(report);
                    continue;
                }
                Recovery::Fail { error } => {
                    reports.push(runtime.fail_turn(task, &error));
                    return (Err(error), reports);
                }
            },
        };
        let (progress, next) = runtime.answer(&mut run, response);
        reports.extend(progress);
        match next {
            Next::Act { calls } => {
                for call in &calls {
                    let result = execute_tool_call(call, tool_outcome(call));
                    reports.extend(runtime.tool_done(&mut run, call, result));
                }
            }
            Next::Done { text } => {
                let elapsed = Duration { secs: 1, nanos: 0 };
                let (output, report) = runtime.finish(&run, task, text, elapsed, AT);
                reports.push(report);
                return (Ok(output), reports);
            }
        }
    }
}

fn task(instruction: &str) -> Task {
    Task::new(
        TriggerSource::Internal,
        instruction.to_string(),
        "test-agent".to_string(),
    )
}

#[test]
fn simple_text_response_completes() {
    let runtime = AgentRuntime::new(test_config(), 1);
    let mut task = task("Say hello");
    let (output, reports) = execute(
        &runtime,
        &mut task,
        vec![Answer::Response(text_response("Hello, task complete!", 10, 5))],
    );
    let output = output.unwrap();
    assert_eq!(output.artifacts.len(), 1);
    assert!(output.artifacts[0].content.contains("Hello"));

    // Should have received a Completed report
    assert!(matches!(reports[0], SubAgentReport::Completed { .. }));
    assert!(matches!(task.state, TaskState::Completed { .. }));
    assert_eq!(task.checkpoints.len(), 1);
}

#[test]
fn tool_call_then_text_response() {
    let runtime = AgentRuntime::new(test_config(), 1);
    let mut task = task("Search for something");
    let (output, _) = execute(
        &runtime,
        &mut task,
        vec![
            // First call: tool call
            Answer::Response(LlmResponse {
                text: None,
                tool_calls: vec![call(
                    "call-1",
                    "search",
                    Json::no_fields().with("query", Json::Text("test".to_string())),
                )],
                prompt_tokens: 10,
                completion_tokens: 5,
            }),
            // Second call: final text response
            Answer::Response(text_response(
                "Based on the search, here is the answer.",
                15,
                10,
            )),
        ],
    );
    let output = output.unwrap();
    assert!(output.artifacts[0].content.contains("answer"));
    assert_eq!(output.token_usage.prompt_tokens, 25);
}

#[test]
fn max_iterations_exceeded() {
    // LLM always returns tool calls, never a final answer
    let answers: Vec<Answer> = (0..10)
        .map(|i| {
            Answer::Response(LlmResponse {
                text: None,
                tool_calls: vec![call(&format!("call-{i}"), "loop_tool", Json::no_fields())],
                prompt_tokens: 5,
                completion_tokens: 5,
            })
        })
        .collect();

    let mut config = test_config();
    config.max_iterations = 3;

    let runtime = AgentRuntime::new(config, 1);
    let mut task = task("Infinite loop task");

    let (result, reports) = execute(&runtime, &mut task, answers);
    assert!(result.is_err());
    assert!(matches!(
        result.unwrap_err(),
        NeuromancerError::Agent(AgentError::MaxIterationsExceeded { .. })
    ));
    assert!(matches!(reports[0], SubAgentReport::Stuck { .. }));
    assert!(matches!(reports[1], SubAgentReport::Failed { .. }));
    assert!(matches!(task.state, TaskState::Failed { .. }));
}

#[test]
fn execute_recovers_from_invalid_tool_call_error() {
    let runtime = AgentRuntime::new(test_config(), 1);
    let mut task = task("Answer the question");
    let (output, reports) = execute(
        &runtime,
        &mut task,
        vec![
            Answer::Error(invalid_tool_call_error("manage_bills")),
            Answer::Response(text_response("Recovered response", 0, 0)),
        ],
    );
    let output = output.expect("recovery should succeed");
    assert!(output.artifacts[0].content.contains("Recovered response"));
    assert!(matches!(
        &reports[0],
        SubAgentReport::ToolFailure { tool_id, .. } if tool_id == "manage_bills"
    ));
}

#[test]
fn execute_fails_when_invalid_tool_call_retries_exhausted() {
    let runtime = AgentRuntime::new(test_config(), 1);
    let mut task = task("Answer the question");
    let (output, _) = execute(
        &runtime,
        &mut task,
        vec![
            Answer::Error(invalid_tool_call_error("manage_bills")),
            Answer::Error(invalid_tool_call_error("manage_accounts")),
        ],
    );
    let err = output.expect_err("retries should be exhausted");
    assert!(
        err.to_text()
            .contains("invalid tool-call recovery exhausted after 1 retries"),
        "unexpected error: {}",
        err.to_text()
    );
}

#[test]
fn execute_turn_recovers_from_invalid_tool_call_error() {
    let runtime = AgentRuntime::new(test_config(), 1);
    let (mut task, mut run) = runtime.begin_turn(
        TriggerSource::Internal,
        "hello".to_string(),
        7,
        vec![],
        vec![],
        &vec![],
    );
    assert!(matches!(runtime.think(&mut run), Thought::Ask { .. }));
    let recovery = runtime.recover(&mut run, invalid_tool_call_error("manage_bills"));
    assert!(matches!(recovery, Recovery::Again { .. }));
    assert!(matches!(runtime.think(&mut run), Thought::Ask { .. }));
    let (_, next) = runtime.answer(&mut run, text_response("Recovered response", 0, 0));
    let text = match next {
        Next::Done { text } => text,
        other => panic!("unexpected step: {other:?}"),
    };
    let elapsed = Duration { secs: 1, nanos: 0 };
    let (output, report) = runtime.finish_turn(&mut run, &mut task, text, elapsed, AT);
    assert!(output.message.contains("Recovered response"));
    assert!(matches!(report, SubAgentReport::Completed { .. }));
    // The question, the refused call, its refusal and the answer are new.
    assert_eq!(run.new_messages().len(), 4);
}

#[test]
fn turns_keep_what_is_new_whether_they_succeed_or_fail() {
    for fails in [false, true] {
        let runtime = AgentRuntime::new(test_config(), 1);
        let (mut task, mut run) = runtime.begin_turn(
            TriggerSource::Internal,
            "hello".to_string(),
            7,
            vec![ChatMessage::user("earlier"), ChatMessage::assistant_text("answered")],
            vec![ChatMessage::system("known to the agent")],
            &vec![],
        );
        assert!(matches!(runtime.think(&mut run), Thought::Ask { .. }));
        let recovery = runtime.recover(&mut run, invalid_tool_call_error("manage_bills"));
        assert!(matches!(recovery, Recovery::Again { .. }));
        assert!(matches!(runtime.think(&mut run), Thought::Ask { .. }));
        let outcome = if fails {
            match runtime.recover(&mut run, invalid_tool_call_error("manage_bills")) {
                Recovery::Fail { error } => Err(error),
                other => panic!("unexpected recovery: {other:?}"),
            }
        } else {
            let (_, next) = runtime.answer(&mut run, text_response("done", 0, 0));
            let text = match next {
                Next::Done { text } => text,
                other => panic!("unexpected step: {other:?}"),
            };
            let elapsed = Duration { secs: 1, nanos: 0 };
            Ok(runtime.finish_turn(&mut run, &mut task, text, elapsed, AT).0)
        };
        let (kept, outcome) = run.end_turn(outcome);
        assert_eq!(kept.len(), if fails { 3 } else { 4 });
        assert!(matches!(&kept[0].content, MessageContent::Text(text) if text == "hello"));
        assert!(!kept.iter().any(
            |m| matches!(&m.content, MessageContent::Text(text) if text == "known to the agent")
        ));
        assert_eq!(outcome.is_err(), fails);
    }
}

#[test]
fn tools_without_end_lead_to_giving_up() {
    let mut config = test_config();
    config.max_iterations = 3;
    let runtime = AgentRuntime::new(config, 1);
    let mut run = runtime.begin(&mut task("Answer the question"), &vec![]);
    let mut asked = 0;
    while let Thought::Ask { .. } = runtime.think(&mut run) {
        asked += 1;
        let call = ToolCall {
            id: format!("call-{asked}"),
            tool_id: "look".to_string(),
            arguments: Json::no_fields(),
        };
        let mut response = text_response("", 0, 0);
        response.text = None;
        response.tool_calls = vec![call];
        let (_, next) = runtime.answer(&mut run, response);
        let calls = match next {
            Next::Act { calls } => calls,
            other => panic!("unexpected step: {other:?}"),
        };
        for call in &calls {
            let result = ToolResult {
                call_id: call.id.clone(),
                output: ToolOutput::Success(Json::Null),
            };
            assert!(runtime.tool_done(&mut run, call, result).is_none());
        }
    }
    assert_eq!(asked, 3);
    assert_eq!(run.iteration, 4);
}

#[test]
fn other_failures_of_the_model_end_the_run() {
    let runtime = AgentRuntime::new(test_config(), 1);
    let mut task = task("Answer the question");
    let (output, reports) = execute(
        &runtime,
        &mut task,
        vec![Answer::Error(NeuromancerError::Llm(
            LlmError::InvalidResponse {
                reason: "gibberish".to_string(),
            },
        ))],
    );
    assert!(output.is_err());
    assert!(matches!(reports[0], SubAgentReport::Failed { .. }));
}

#[test]
fn truncate_summary_handles_multibyte_unicode_safely() {
    let input = "I\u{2019}m testing \u{2014} unicode boundaries";
    let output = truncate_summary(input, 10);
    assert!(output.ends_with("..."));
    assert!(output.starts_with("I\u{2019}m testi"));
}

// ---- secrets of a call ---------------------------------------------------------------

fn context(secrets: &[&str]) -> AgentContext {
    let mut config = test_config();
    config.capabilities.secrets = secrets.iter().map(|s| s.to_string()).collect();
    AgentRuntime::new(config, 1).agent_context(1)
}

#[test]
fn only_allowed_secrets_are_resolved() {
    let wanted = call(
        "call-1",
        "http",
        Json::no_fields()
            .with("a", Json::Text("{{KEY_B}} {{KEY_A}}".to_string()))
            .with("b", Json::Text("{{OTHER}}".to_string())),
    );
    assert_eq!(
        handles_to_resolve(&context(&["KEY_A", "KEY_B"]), &wanted),
        vec!["KEY_A", "KEY_B"]
    );
    assert!(handles_to_resolve(&context(&[]), &wanted).is_empty());
    assert_eq!(secret_usage(&wanted).purpose, "tool_call:call-1");

    let mut resolved = Named::new();
    resolved.insert("KEY_A".to_string(), "one".to_string());
    let given = resolve_secret_handles(&wanted, &resolved);
    assert_eq!(
        given.arguments.get_str("a").as_deref(),
        Some("{{KEY_B}} one")
    );
    let same = resolve_secret_handles(&wanted, &Named::new());
    assert_eq!(same.arguments, wanted.arguments);
}

#[test]
fn a_call_that_cannot_be_made_is_a_failed_one() {
    let wanted = call("call-1", "http", Json::Null);
    let err = NeuromancerError::Agent(AgentError::MaxIterationsExceeded {
        task_id: 1,
        iterations: 2,
    });
    let said = err.to_text();
    let result = execute_tool_call(&wanted, Err(err));
    assert_eq!(result.call_id, "call-1");
    assert!(matches!(result.output, ToolOutput::Error(text) if text == said));
}

#[test]
fn tools_are_offered_by_their_names() {
    let specs = vec![ToolSpec {
        id: "id".to_string(),
        name: "read_file".to_string(),
        description: "Reads.".to_string(),
        parameters_schema: Json::no_fields().with("type", Json::Text("object".to_string())),
        source: ToolSource::Builtin,
    }];
    assert_eq!(available_tool_names(&specs), ["read_file"]);
    let definitions = specs_to_rig_definitions(&specs);
    assert_eq!(definitions.len(), 1);
    assert_eq!(definitions[0].name, "read_file");
    assert_eq!(definitions[0].description, "Reads.");
    assert_eq!(
        definitions[0].parameters.get_str("type"),
        Some("object".to_string())
    );
}

#[test]
fn unknown_tools_are_told_from_other_faults() {
    let reason = "tool call validation failed: attempted to call tool 'fly' which was not in request.tools";
    assert!(is_invalid_tool_call_reason(reason));
    assert_eq!(extract_attempted_tool_name(reason), Some("fly".to_string()));
    assert!(!is_invalid_tool_call_reason("connection reset"));
    assert_eq!(extract_attempted_tool_name("connection reset"), None);
}

#[test]
fn requests_are_shown_with_short_prompts() {
    let shown = render_request_debug(
        &"s".repeat(501),
        "hi",
        Json::no_items(),
        Json::no_items().and(Json::Text("t".to_string())),
    );
    assert!(shown.contains(r#""current_prompt_preview":"hi""#));
    assert!(shown.contains(r#""chat_history":[]"#));
    assert!(shown.contains(r#""tools":["t"]"#));
    assert!(shown.contains(&format!("{}...(+1 chars)", "s".repeat(500))));
}

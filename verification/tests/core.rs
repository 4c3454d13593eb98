use neuromancer::agent::{
    format_duration, parse_duration, CircuitBreakerConfig, CircuitBreakerState,
};
use neuromancer::agent::{
    AgentCapabilities, AgentHealthConfig, AgentMode, AgentModelConfig, TaskExecutionState,
};
use neuromancer::cli::daemon::{
    restart_result, start_result, start_warnings, status_timeout, DaemonStopResult,
};
use neuromancer::cli::error::CliError;
use neuromancer::cli::install::{agent_prompt_path, orchestrator_prompt_path};
use neuromancer::cli::provider_keys::provider_credential_targets;
use neuromancer::config::{
    default_max_iterations, A2aConfig, AdminApiConfig, AgentTomlConfig, GlobalConfig, MemoryConfig, ModelSlotConfig, NeuromancerConfig,
    OrchestratorConfig, OtelConfig, SecretsConfig, TriggersConfig,
};
use neuromancer::error::{AgentError, LlmError, NeuromancerError, ToolError};
use neuromancer::json::Json;
use neuromancer::named::Named;
use neuromancer::policy::PolicyDecision;
use neuromancer::routing::RoutingMatch;
use neuromancer::task::{
    AgentErrorLike, Artifact, ArtifactKind, Task, TaskOutput, TaskPriority, TaskState, TokenUsage,
};
use neuromancer::text::{join, lines_of, parse_u64, sort_and_dedup, split_on, substitute, trim};
use neuromancer::thread::{estimate_tokens, ThreadScope};
use neuromancer::time::{Duration, Timestamp};
use neuromancer::trigger::{
    Actor, TriggerEvent, TriggerMetadata, TriggerPayload, TriggerSource, TriggerType,
};
use neuromancer::xdg::XdgLayout;

// ---- routing -------------------------------------------------------------------------

fn make_discord_event(channel: &str, text: &str) -> TriggerEvent {
    TriggerEvent {
        trigger_id: "test".into(),
        occurred_at: Timestamp { secs: 0, nanos: 0 },
        actor: Actor::User {
            actor_id: "user1".into(),
        },
        trigger_type: TriggerType::User,
        source: TriggerSource::Chat,
        payload: TriggerPayload::Message { text: text.into() },
        route_hint: None,
        metadata: TriggerMetadata {
            channel_id: Some(channel.into()),
            ..Default::default()
        },
    }
}

#[test]
fn channel_id_match() {
    let rule = RoutingMatch {
        channel_id: Some("browser-tasks".into()),
        ..Default::default()
    };
    let event = make_discord_event("browser-tasks", "hello");
    assert!(rule.matches(&event));

    let event2 = make_discord_event("general", "hello");
    assert!(!rule.matches(&event2));
}

#[test]
fn prefix_match() {
    let rule = RoutingMatch {
        prefix: Some("!nm".into()),
        ..Default::default()
    };
    let event = make_discord_event("general", "!nm do something");
    assert!(rule.matches(&event));

    let event2 = make_discord_event("general", "hello there");
    assert!(!rule.matches(&event2));
}

#[test]
fn no_criteria_match_every_event() {
    let rule = RoutingMatch::default();
    assert!(rule.matches(&make_discord_event("general", "hello")));
    let rule = RoutingMatch {
        actor_id: Some("someone else".into()),
        ..Default::default()
    };
    assert!(!rule.matches(&make_discord_event("general", "hello")));
}

// ---- errors --------------------------------------------------------------------------

#[test]
fn a_denied_capability_is_told() {
    let error = ToolError::CapabilityDenied {
        agent_id: "planner".to_string(),
        capability: "can_request:browser".to_string(),
    };
    assert_eq!(
        error.to_text(),
        "capability denied for agent planner: can_request:browser"
    );
}

#[test]
fn elapsed_times_are_told_as_rust_shows_them() {
    let error = NeuromancerError::Llm(LlmError::RateLimited {
        provider: "openai".to_string(),
        retry_after: Duration {
            secs: 1,
            nanos: 500_000_000,
        },
    });
    assert!(error.to_text().contains("1.5s"), "{}", error.to_text());
}

#[test]
fn identifiers_are_told_in_groups() {
    let error = AgentError::MaxIterationsExceeded {
        task_id: 1,
        iterations: 3,
    };
    assert_eq!(
        error.to_text(),
        "max iterations exceeded for task 00000000-0000-0000-0000-000000000001: 3 iterations"
    );
}

// ---- tasks ---------------------------------------------------------------------------

fn output() -> TaskOutput {
    TaskOutput {
        artifacts: vec![Artifact {
            kind: ArtifactKind::Text,
            name: "answer".to_string(),
            content: "done".to_string(),
            mime_type: Some("text/plain".to_string()),
        }],
        summary: "done".to_string(),
        token_usage: TokenUsage {
            prompt_tokens: 0,
            completion_tokens: 0,
            total_tokens: 0,
        },
        duration: Duration::from_millis(25),
    }
}

#[test]
fn states_are_active_or_over() {
    let active = [
        TaskState::Queued,
        TaskState::Dispatched,
        TaskState::Running {
            execution_state: TaskExecutionState::Initializing { task_id: 1 },
        },
    ];
    for state in active {
        assert!(state.is_active());
        assert!(!state.is_terminal());
    }
    let over = [
        TaskState::Completed { output: output() },
        TaskState::Failed {
            error: AgentErrorLike::new("failed", "boom"),
        },
        TaskState::Cancelled {
            reason: "user".to_string(),
        },
    ];
    for state in over {
        assert!(!state.is_active());
        assert!(state.is_terminal());
    }
}

#[test]
fn tasks_are_built_step_by_step() {
    let task = Task::new(TriggerSource::Cli, "do it".into(), "planner".into())
        .with_priority(TaskPriority::High)
        .with_idempotency_key("key".into())
        .with_parent(7);
    assert!(matches!(task.state, TaskState::Queued));
    assert_eq!(task.priority, TaskPriority::High);
    assert_eq!(task.idempotency_key.as_deref(), Some("key"));
    assert_eq!(task.parent_id, Some(7));
    assert_eq!(task.created_at, task.updated_at);
    let other = Task::new(TriggerSource::Cli, "do it".into(), "planner".into());
    assert_ne!(task.id, other.id);
    assert!(task.created_at.secs > 1_700_000_000);
}

#[test]
fn artifact_words_are_read_back() {
    for kind in [
        ArtifactKind::Text,
        ArtifactKind::Code,
        ArtifactKind::File,
        ArtifactKind::Url,
        ArtifactKind::Data,
    ] {
        assert_eq!(ArtifactKind::from_str(kind.as_str()), Ok(kind));
    }
    assert!(ArtifactKind::from_str("song").is_err());
}

#[test]
fn outputs_are_documents() {
    let doc = output().to_json();
    assert_eq!(doc.get_str("summary").as_deref(), Some("done"));
    assert!(matches!(doc.get("artifacts"), Some(Json::Array(list)) if list.len() == 1));
}

// ---- durations and breakers ----------------------------------------------------------

#[test]
fn durations_are_read_and_written() {
    assert_eq!(parse_duration("30s"), Some(Duration::from_secs(30)));
    assert_eq!(parse_duration("10m"), Some(Duration::from_secs(600)));
    assert_eq!(parse_duration("2h"), Some(Duration::from_secs(7200)));
    assert_eq!(parse_duration(" 45 "), Some(Duration::from_secs(45)));
    assert_eq!(parse_duration("soon"), None);
    assert_eq!(format_duration(Duration::from_secs(120)), "2m");
    assert_eq!(format_duration(Duration::from_secs(90)), "90s");
}

#[test]
fn breakers_open_after_enough_failures() {
    let mut breaker = CircuitBreakerState::new(CircuitBreakerConfig {
        failures: 2,
        window: Duration::from_secs(10),
    });
    breaker.record_failure(Timestamp { secs: 0, nanos: 0 });
    breaker.record_failure(Timestamp { secs: 20, nanos: 0 });
    assert!(!breaker.is_open());
    breaker.record_failure(Timestamp { secs: 25, nanos: 0 });
    assert!(breaker.is_open());
    breaker.record_failure(Timestamp { secs: 99, nanos: 0 });
    assert!(breaker.is_open());
    breaker.reset();
    assert!(!breaker.is_open());
}

// ---- configuration -------------------------------------------------------------------

fn slot(provider: &str, model: &str) -> ModelSlotConfig {
    ModelSlotConfig {
        provider: provider.to_string(),
        model: model.to_string(),
        base_url: None,
        tool_call_retry_limit: 1,
    }
}

fn config() -> NeuromancerConfig {
    let mut models = Named::new();
    models.insert("executor".to_string(), slot("groq", "a"));
    models.insert("planner".to_string(), slot("openai", "b"));
    let mut orchestrator = OrchestratorConfig::default();
    orchestrator.model_slot = Some("executor".to_string());
    NeuromancerConfig {
        global: GlobalConfig {
            instance_id: "t".to_string(),
            workspace_dir: "/tmp".to_string(),
            data_dir: "/tmp".to_string(),
        },
        otel: OtelConfig {
            service_name: None,
            otlp_endpoint: None,
        },
        secrets: SecretsConfig::default(),
        memory: MemoryConfig::default(),
        models,
        mcp_servers: Named::new(),
        a2a: A2aConfig::default(),
        orchestrator,
        agents: Named::new(),
        triggers: TriggersConfig {
            discord: None,
            cron: vec![],
        },
        admin_api: AdminApiConfig {
            bind_addr: "127.0.0.1:9090".to_string(),
            enabled: true,
        },
    }
}

#[test]
fn targets_are_unique_and_include_paths() {
    let cfg = config();
    let layout = XdgLayout::new("/tmp/home".to_string());
    let targets = provider_credential_targets(&cfg, &layout);
    assert_eq!(targets.len(), 2);
    assert!(targets
        .iter()
        .any(|target| target.env_var == "GROQ_API_KEY"));
    assert!(targets
        .iter()
        .any(|target| target.env_var == "OPENAI_API_KEY"));
    assert!(targets
        .iter()
        .all(|target| target.path.starts_with(&layout.provider_keys_dir())));
}

#[test]
fn one_provider_in_two_slots_is_one_target() {
    let mut cfg = config();
    cfg.models.insert("browser".to_string(), slot("GROQ", "c"));
    cfg.models.insert("trial".to_string(), slot("mock", "d"));
    let layout = XdgLayout::new("/tmp/home".to_string());
    assert_eq!(provider_credential_targets(&cfg, &layout).len(), 2);
}

#[test]
fn self_improvement_is_off_unless_asked_for() {
    let cfg = OrchestratorConfig::default();
    assert!(!cfg.self_improvement.enabled);
    assert_eq!(cfg.self_improvement.audit_agent_id, "audit-agent");
    assert!(cfg.self_improvement.require_admin_message_for_mutations);
    assert!(cfg.self_improvement.verify_before_authorize);
    assert!(cfg.self_improvement.canary_before_promote);
}

#[test]
fn defaults_have_their_values() {
    assert_eq!(neuromancer::config::default_tool_call_retry_limit(), 1);
    assert_eq!(
        neuromancer::config::default_orchestrator_max_iterations(),
        OrchestratorConfig::default().max_iterations
    );
    assert_eq!(MemoryConfig::default().backend, "sqlite");
}

// ---- texts ---------------------------------------------------------------------------

#[test]
fn texts_are_taken_apart_and_put_together() {
    assert_eq!(trim("\u{3000} a b\n"), "a b");
    assert_eq!(lines_of("a\r\nb\n\nc"), vec!["a", "b", "", "c"]);
    assert_eq!(split_on("a,b,", ','), vec!["a", "b", ""]);
    assert_eq!(substitute("abc", "", "-"), "-a-b-c-");
    assert_eq!(substitute("aaa", "aa", "b"), "ba");
    let list = vec!["b".to_string(), "a".to_string(), "b".to_string()];
    assert_eq!(sort_and_dedup(&list), vec!["a", "b"]);
    assert_eq!(join(&list, "+"), "b+a+b");
    assert_eq!(parse_u64("18446744073709551615"), Some(u64::MAX));
    assert_eq!(parse_u64("18446744073709551616"), None);
    assert_eq!(parse_u64("+7"), Some(7));
    assert_eq!(parse_u64(""), None);
    assert!(estimate_tokens("four chars each") > 0);
}

// ---- agents of a configuration -----------------------------------------------------------

fn agent(prompt: Option<&str>) -> AgentTomlConfig {
    AgentTomlConfig {
        mode: AgentMode::Inproc,
        image: None,
        models: AgentModelConfig::default(),
        capabilities: AgentCapabilities::default(),
        health: AgentHealthConfig::default(),
        system_prompt_path: prompt.map(|path| path.to_string()),
        max_iterations: default_max_iterations(),
    }
}

#[test]
fn a_configured_agent_gets_its_name_and_prompt() {
    let mut toml = agent(None);
    toml.capabilities.skills = vec!["search".to_string()];
    let made = toml.to_agent_config("planner", "You plan.".to_string());
    assert_eq!(made.id, "planner");
    assert_eq!(made.system_prompt, "You plan.");
    assert_eq!(made.capabilities.skills, ["search"]);
    assert_eq!(made.max_iterations, 20);
}

#[test]
fn prompts_stand_beside_the_configuration() {
    let layout = XdgLayout::new("/home/test".to_string());
    let mut cfg = config();
    assert_eq!(
        orchestrator_prompt_path(&cfg, &layout, "/cfg/neuromancer.toml").ok(),
        Some(layout.default_orchestrator_system_prompt_path())
    );
    cfg.orchestrator.system_prompt_path = Some("prompts/SYSTEM.md".to_string());
    assert_eq!(
        orchestrator_prompt_path(&cfg, &layout, "/cfg/neuromancer.toml").ok(),
        Some("/cfg/prompts/SYSTEM.md".to_string())
    );
    cfg.agents.insert("planner".to_string(), agent(Some("~/p.md")));
    cfg.agents.insert("reader".to_string(), agent(None));
    assert_eq!(
        agent_prompt_path(&cfg, 0, &layout, "/cfg/neuromancer.toml").ok(),
        Some("/home/test/p.md".to_string())
    );
    assert_eq!(
        agent_prompt_path(&cfg, 1, &layout, "/cfg/neuromancer.toml").ok(),
        Some(layout.default_agent_system_prompt_path("reader"))
    );
    cfg.orchestrator.system_prompt_path = Some("  ".to_string());
    assert!(matches!(
        orchestrator_prompt_path(&cfg, &layout, "/cfg/neuromancer.toml"),
        Err(CliError::Usage(_))
    ));
}

#[test]
fn a_start_without_agents_is_warned_of() {
    let mut cfg = config();
    assert_eq!(start_warnings(&cfg).len(), 1);
    cfg.agents.insert("planner".to_string(), agent(None));
    assert!(start_warnings(&cfg).is_empty());
}

#[test]
fn a_restart_tells_whether_something_ran() {
    let warned = vec!["w".to_string()];
    let fresh = restart_result(false, None, start_result(7, "/tmp/p", warned.clone()));
    assert_eq!(
        fresh.warnings,
        ["daemon was not running; starting a new instance.", "w"]
    );
    assert!(fresh.start.warnings.is_empty());
    let stop = DaemonStopResult {
        pid: 6,
        stopped: true,
        forced: false,
    };
    let again = restart_result(true, Some(stop), start_result(7, "/tmp/p", warned));
    assert_eq!(again.warnings, ["w"]);
    assert_eq!(again.stop.map(|stop| stop.pid), Some(6));
    assert_eq!(status_timeout(Duration::from_secs(30)), Duration::from_secs(5));
    assert_eq!(status_timeout(Duration::from_secs(2)), Duration::from_secs(2));
}

// ---- words -------------------------------------------------------------------------------

#[test]
fn scopes_are_named_and_refer() {
    assert_eq!(ThreadScope::System0.scope_type(), "system0");
    assert_eq!(ThreadScope::System0.scope_ref(), None);
    let task = ThreadScope::Task {
        task_id: "t-1".to_string(),
    };
    assert_eq!(task.scope_type(), "task");
    assert_eq!(task.scope_ref(), Some("t-1".to_string()));
    let talk = ThreadScope::UserConversation { conversation_id: 1 };
    assert_eq!(
        talk.scope_ref(),
        Some("00000000-0000-0000-0000-000000000001".to_string())
    );
    let shared = ThreadScope::Collaboration {
        parent_thread_id: "parent".to_string(),
        root_scope: Box::new(task),
    };
    assert_eq!(shared.scope_type(), "collaboration");
    assert_eq!(shared.scope_ref(), Some("parent".to_string()));
}

#[test]
fn only_allowing_is_allowed() {
    assert!(PolicyDecision::Allow.is_allowed());
    assert!(!PolicyDecision::Deny {
        reason: "r".to_string(),
        code: "c".to_string(),
    }
    .is_allowed());
    assert!(!PolicyDecision::RequireApproval {
        question: "q".to_string(),
    }
    .is_allowed());
}

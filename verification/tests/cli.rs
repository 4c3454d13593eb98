use neuromancer::cli::commands::{
    Command, DaemonCommand, OrchestratorCommand, OrchestratorEventsCommand,
    OrchestratorReportsCommand, OrchestratorRunsCommand, OrchestratorStatsCommand,
    OrchestratorSubagentCommand, OrchestratorThreadsCommand, RpcCommand,
};
use neuromancer::cli::error::CliError;
use neuromancer::cli::grammar::UsageError;
use neuromancer::cli::provider_keys::provider_env_var;
use neuromancer::cli::rpc_client::{map_transport_error, TransportFault};
use neuromancer::cli::smoke::parse_json_params;
use neuromancer::cli::Cli;
use neuromancer::time::Duration;

fn parse(args: &[&str]) -> Result<Cli, UsageError> {
    Cli::try_parse_from(args.iter().map(|arg| arg.to_string()).collect())
}

#[test]
fn parses_daemon_start_wait_healthy() {
    let cli = parse(&["neuroctl", "daemon", "start", "--wait-healthy"])
        .expect("cli should parse");

    match cli.command {
        Command::Daemon {
            command: DaemonCommand::Start(args),
        } => {
            assert!(args.wait_healthy);
            assert!(args.config.is_none());
            assert_eq!(args.pid_file, "/tmp/neuromancer.pid");
        }
        other => panic!("unexpected command parsed: {other:?}"),
    }
}

#[test]
fn parses_daemon_start_with_explicit_config() {
    let cli = parse(&[
        "neuroctl",
        "daemon",
        "start",
        "--config",
        "/tmp/config.toml",
    ])
    .expect("cli should parse");

    match cli.command {
        Command::Daemon {
            command: DaemonCommand::Start(args),
        } => {
            assert_eq!(args.config, Some("/tmp/config.toml".to_string()));
            assert!(!args.wait_healthy);
        }
        other => panic!("unexpected command parsed: {other:?}"),
    }
}

#[test]
fn parses_daemon_restart_defaults() {
    let cli = parse(&["neuroctl", "daemon", "restart"]).expect("cli should parse");

    match cli.command {
        Command::Daemon {
            command: DaemonCommand::Restart(args),
        } => {
            assert!(args.config.is_none());
            assert!(args.daemon_bin.is_none());
            assert_eq!(args.pid_file, "/tmp/neuromancer.pid");
            assert_eq!(args.grace, Duration::from_secs(15));
            assert!(!args.wait_healthy);
        }
        other => panic!("unexpected command parsed: {other:?}"),
    }
}

#[test]
fn parses_install_command() {
    let cli = parse(&[
        "neuroctl",
        "install",
        "--config",
        "/tmp/neuromancer.toml",
        "--override-config",
    ])
    .expect("cli should parse");

    match cli.command {
        Command::Install(args) => {
            assert_eq!(args.config, Some("/tmp/neuromancer.toml".to_string()));
            assert!(args.override_config);
        }
        other => panic!("unexpected command parsed: {other:?}"),
    }
}

#[test]
fn parses_install_command_without_config() {
    let cli = parse(&["neuroctl", "install"]).expect("cli should parse");

    match cli.command {
        Command::Install(args) => {
            assert!(args.config.is_none());
            assert!(!args.override_config);
        }
        other => panic!("unexpected command parsed: {other:?}"),
    }
}

#[test]
fn parses_timeout_duration() {
    let cli =
        parse(&["neuroctl", "--timeout", "3s", "health"]).expect("cli parse");
    assert_eq!(cli.timeout, Duration::from_secs(3));
}

#[test]
fn parses_orchestrator_turn_command() {
    let cli = parse(&[
        "neuroctl",
        "orchestrator",
        "turn",
        "what should I pay first?",
    ])
    .expect("cli should parse");

    match cli.command {
        Command::Orchestrator {
            command: OrchestratorCommand::Turn(args),
        } => {
            assert_eq!(args.message, "what should I pay first?");
        }
        other => panic!("unexpected command parsed: {other:?}"),
    }
}

#[test]
fn parses_orchestrator_chat_command() {
    let cli =
        parse(&["neuroctl", "orchestrator", "chat"]).expect("cli should parse");

    match cli.command {
        Command::Orchestrator {
            command: OrchestratorCommand::Chat(_),
        } => {}
        other => panic!("unexpected command parsed: {other:?}"),
    }
}

#[test]
fn parses_orchestrator_runs_get_command() {
    let cli = parse(&["neuroctl", "orchestrator", "runs", "get", "run-123"])
        .expect("cli should parse");

    match cli.command {
        Command::Orchestrator {
            command: OrchestratorCommand::Runs { command },
        } => match command {
            OrchestratorRunsCommand::Get(args) => assert_eq!(args.run_id, "run-123"),
            other => panic!("unexpected runs command parsed: {other:?}"),
        },
        other => panic!("unexpected command parsed: {other:?}"),
    }
}

#[test]
fn parses_orchestrator_runs_list_command() {
    let cli = parse(&["neuroctl", "orchestrator", "runs", "list"])
        .expect("cli should parse");

    match cli.command {
        Command::Orchestrator {
            command: OrchestratorCommand::Runs { command },
        } => match command {
            OrchestratorRunsCommand::List => {}
            other => panic!("unexpected runs command parsed: {other:?}"),
        },
        other => panic!("unexpected command parsed: {other:?}"),
    }
}

#[test]
fn parses_orchestrator_runs_diagnose_command() {
    let cli = parse(&["neuroctl", "orchestrator", "runs", "diagnose", "run-123"])
        .expect("cli should parse");

    match cli.command {
        Command::Orchestrator {
            command: OrchestratorCommand::Runs { command },
        } => match command {
            OrchestratorRunsCommand::Diagnose(args) => assert_eq!(args.run_id, "run-123"),
            other => panic!("unexpected runs command parsed: {other:?}"),
        },
        other => panic!("unexpected command parsed: {other:?}"),
    }
}

#[test]
fn parses_orchestrator_events_query_command() {
    let cli = parse(&[
        "neuroctl",
        "orchestrator",
        "events",
        "query",
        "--thread-id",
        "thread-1",
        "--tool-id",
        "delegate_to_agent",
        "--limit",
        "50",
    ])
    .expect("cli should parse");

    match cli.command {
        Command::Orchestrator {
            command: OrchestratorCommand::Events { command },
        } => match command {
            OrchestratorEventsCommand::Query(args) => {
                assert_eq!(args.thread_id.as_deref(), Some("thread-1"));
                assert_eq!(args.tool_id.as_deref(), Some("delegate_to_agent"));
                assert_eq!(args.limit, Some(50));
            }
        },
        other => panic!("unexpected command parsed: {other:?}"),
    }
}

#[test]
fn parses_orchestrator_reports_query_command() {
    let cli = parse(&[
        "neuroctl",
        "orchestrator",
        "reports",
        "query",
        "--run-id",
        "run-123",
        "--report-type",
        "stuck",
        "--include-remediation",
        "true",
    ])
    .expect("cli should parse");

    match cli.command {
        Command::Orchestrator {
            command: OrchestratorCommand::Reports { command },
        } => match command {
            OrchestratorReportsCommand::Query(args) => {
                assert_eq!(args.run_id.as_deref(), Some("run-123"));
                assert_eq!(args.report_type.as_deref(), Some("stuck"));
                assert_eq!(args.include_remediation, Some(true));
            }
        },
        other => panic!("unexpected command parsed: {other:?}"),
    }
}

#[test]
fn parses_orchestrator_stats_get_command() {
    let cli = parse(&["neuroctl", "orchestrator", "stats", "get"])
        .expect("cli should parse");

    match cli.command {
        Command::Orchestrator {
            command: OrchestratorCommand::Stats { command },
        } => match command {
            OrchestratorStatsCommand::Get => {}
        },
        other => panic!("unexpected command parsed: {other:?}"),
    }
}

#[test]
fn parses_orchestrator_threads_resurrect_command() {
    let cli = parse(&[
        "neuroctl",
        "orchestrator",
        "threads",
        "resurrect",
        "thread-123",
    ])
    .expect("cli should parse");

    match cli.command {
        Command::Orchestrator {
            command: OrchestratorCommand::Threads { command },
        } => match command {
            OrchestratorThreadsCommand::Resurrect(args) => {
                assert_eq!(args.thread_id, "thread-123")
            }
            other => panic!("unexpected threads command parsed: {other:?}"),
        },
        other => panic!("unexpected command parsed: {other:?}"),
    }
}

#[test]
fn parses_orchestrator_subagent_turn_command() {
    let cli = parse(&[
        "neuroctl",
        "orchestrator",
        "subagent",
        "turn",
        "--thread-id",
        "thread-123",
        "continue from here",
    ])
    .expect("cli should parse");

    match cli.command {
        Command::Orchestrator {
            command: OrchestratorCommand::Subagent { command },
        } => match command {
            OrchestratorSubagentCommand::Turn(args) => {
                assert_eq!(args.thread_id, "thread-123");
                assert_eq!(args.message, "continue from here");
            }
        },
        other => panic!("unexpected command parsed: {other:?}"),
    }
}

#[test]
fn error_code_mapping_is_stable() {
    assert_eq!(CliError::Usage("x".into()).exit_code(), 2);
    assert_eq!(CliError::Lifecycle("x".into()).exit_code(), 3);
    assert_eq!(CliError::RpcTransport("x".into()).exit_code(), 4);
    assert_eq!(CliError::Smoke("x".into()).exit_code(), 5);
}

#[test]
fn provider_env_var_is_not_groq_only() {
    assert_eq!(provider_env_var("groq").as_deref(), Some("GROQ_API_KEY"));
    assert_eq!(
        provider_env_var("openai").as_deref(),
        Some("OPENAI_API_KEY")
    );
    assert_eq!(
        provider_env_var("anthropic").as_deref(),
        Some("ANTHROPIC_API_KEY")
    );
}

#[test]
fn provider_env_var_maps_fireworks() {
    assert_eq!(
        provider_env_var("fireworks").as_deref(),
        Some("FIREWORKS_API_KEY")
    );
}

#[test]
fn provider_env_var_ignores_mock() {
    assert!(provider_env_var("mock").is_none());
}

#[test]
fn removed_task_command_fails_with_usage_error() {
    let err = parse(&["neuroctl", "task", "list"]).expect_err("there is no such command");
    assert_eq!(err.exit_code(), 2);
}

#[test]
fn rpc_transport_failures_use_exit_code_4() {
    let cli = parse(&["neuroctl", "--addr", "http://127.0.0.1:1", "health"]).expect("cli parse");
    let err = map_transport_error(TransportFault::Connect, &cli.addr, "admin.health", "{}");
    let err = CliError::from_rpc(err);
    assert_eq!(err.exit_code(), 4);
    let message = err.to_text();
    assert!(
        message.contains("does not appear to be running"),
        "transport error should explain that daemon is likely down: {message}",
    );
}

#[test]
fn usage_errors_use_exit_code_2() {
    let cli = parse(&[
        "neuroctl",
        "rpc",
        "call",
        "--method",
        "admin.health",
        "--params",
        "not-json",
    ])
    .expect("cli should parse");
    match cli.command {
        Command::Rpc {
            command: RpcCommand::Call(args),
        } => {
            assert_eq!(args.method, "admin.health");
            let err = parse_json_params(args.params).expect_err("not JSON");
            assert_eq!(err.exit_code(), 2);
        }
        other => panic!("unexpected command parsed: {other:?}"),
    }
}

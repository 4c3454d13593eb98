use neuromancer::chat::clipboard::clipboard_text;
use neuromancer::chat::run::{
    check_demo_terminal, check_terminal, map_io_err, map_terminal_err, parse_ndjson_message_line,
    snapshot_event, turn_complete_event, turn_error_event, Frames, ANIMATION_FRAME_INTERVAL,
    IDLE_POLL_INTERVAL, PENDING_POLL_INTERVAL,
};
use neuromancer::cli::daemon::{
    check_daemon_config, check_not_running, check_pid, check_stoppable, daemon_status,
    pid_file_text, read_pid_file, readiness_timeout, resolve_daemon_bin, resolve_provider_key,
    signal_failed, start_result, startup_expired, startup_step, stop_step, ConfigFile,
    DaemonSight, StartupStep, StopPhase, StopStep,
};
use neuromancer::cli::error::CliError;
use neuromancer::cli::span::is_too_long;
use neuromancer::cli::grammar::{parse_duration, UsageError, SPAN_TOO_LONG};
use neuromancer::cli::install::{
    install_dirs, needs_own_config, resolve_config_path, FileStep, InstallResult,
};
use neuromancer::cli::output::{error_text, success_text};
use neuromancer::cli::provider_keys::{
    key_file_text, normalize_for_filename, normalize_provider, provider_env_var,
    provider_key_path, read_nonempty, ProviderCredentialTarget,
};
use neuromancer::cli::rpc_client::{
    endpoint, map_rpc_error, map_transport_error, read_reply, request, RpcClientError,
    TransportFault,
};
use neuromancer::cli::smoke::{smoke_outcome, smoke_turn, SmokeOptions, SmokeResult};
use neuromancer::cli::Cli;
use neuromancer::json::Json;
use neuromancer::rpc::{JsonRpcError, JsonRpcId, JsonRpcResponse};
use neuromancer::time::Duration;
use neuromancer::xdg::XdgLayout;

fn parse(args: &[&str]) -> Result<Cli, UsageError> {
    Cli::try_parse_from(args.iter().map(|arg| arg.to_string()).collect())
}

fn layout() -> XdgLayout {
    XdgLayout::new("/tmp/home".to_string())
}

fn target() -> ProviderCredentialTarget {
    ProviderCredentialTarget {
        provider: "groq".to_string(),
        env_var: "GROQ_API_KEY".to_string(),
        path: "/keys/groq.key".to_string(),
    }
}

// ---- arguments -----------------------------------------------------------------------

#[test]
fn options_have_two_forms_and_defaults() {
    let cli = parse(&["neuroctl", "--timeout=2m 5s", "health"]).expect("cli parse");
    assert_eq!(cli.timeout, Duration::from_secs(125));
    assert!(!cli.json);
    let cli = parse(&["neuroctl", "--json", "health"]).expect("cli parse");
    assert!(cli.json);
    assert_eq!(cli.timeout, Duration::from_secs(10));
}

#[test]
fn what_is_not_in_the_grammar_is_refused() {
    for args in [
        &["neuroctl"][..],
        &["neuroctl", "--timeout", "soon", "health"],
        &["neuroctl", "--timeout", "1s", "--timeout", "2s", "health"],
        &["neuroctl", "health", "more"],
        &["neuroctl", "--loud", "health"],
        &["neuroctl", "--addr"],
    ] {
        let err = parse(args).expect_err("no such call");
        assert_eq!(err.exit_code(), 2, "{args:?}");
    }
    let help = parse(&["neuroctl", "--help"]).expect_err("help is no command");
    assert_eq!(help.exit_code(), 0);
}

#[test]
fn durations_are_read_as_people_write_them() {
    assert_eq!(parse_duration("2h 30m"), Ok(Duration::from_secs(9000)));
    assert!(parse_duration("").is_err());
}

#[test]
fn times_that_cannot_be_held_are_refused() {
    let most = "18446744073709551615s";
    assert!(!is_too_long(most));
    assert_eq!(
        parse_duration(most),
        Ok(Duration::from_secs(18446744073709551615))
    );
    for more in [
        "1000000000ns",
        "1000000us",
        "1000000\u{b5}s",
        "1000ms",
        "999ms 1000us",
        "0.5s 500ms",
        "1s",
        "2years",
    ] {
        let text = format!("{most} {more}");
        assert!(is_too_long(&text), "{text}");
        assert_eq!(parse_duration(&text), Err(SPAN_TOO_LONG.to_string()));
        assert!(parse(&["neuroctl", "--timeout", &text, "health"]).is_err());
    }
    for text in ["18446744073709551615s 2s", "584554049254years"] {
        assert_eq!(
            humantime::parse_duration(text).map_err(|e| e.to_string()),
            Err(SPAN_TOO_LONG.to_string())
        );
        assert_eq!(parse_duration(text), Err(SPAN_TOO_LONG.to_string()));
    }
    let fits = format!("{most} 999999999ns");
    assert_eq!(parse_duration(&fits).map(|d| d.nanos), Ok(999_999_999));
}

/// Every text that is short enough is read as `humantime` reads it.
#[test]
fn times_are_read_as_humantime_reads_them() {
    let pieces = [
        "1", "0", "9", "18446744073709551615", "18446744073709551614", "1000000000", "999", "1.5",
        "0.25", ".", " ", "ns", "us", "\u{b5}s", "ms", "s", "sec", "m", "min", "h", "d", "w", "M",
        "y", "years", "x", "-",
    ];
    let mut seed: u64 = 7;
    let mut read = 0;
    for _ in 0..40_000 {
        let mut text = String::new();
        for _ in 0..6 {
            seed = seed.wrapping_mul(6364136223846793005).wrapping_add(1442695040888963407);
            text.push_str(pieces[(seed >> 33) as usize % pieces.len()]);
        }
        if is_too_long(&text) {
            assert!(parse_duration(&text).is_err(), "{text}");
            continue;
        }
        let told = humantime::parse_duration(&text)
            .map(|d| Duration { secs: d.as_secs(), nanos: d.subsec_nanos() })
            .map_err(|e| e.to_string());
        read += told.is_ok() as usize;
        assert_eq!(parse_duration(&text), told, "{text}");
    }
    assert!(read > 50, "{read}");
}

// ---- the daemon ----------------------------------------------------------------------

#[test]
fn notes_of_processes_are_read() {
    assert_eq!(
        read_pid_file("/p", Ok(" 42\n".to_string())).expect("a number"),
        42
    );
    assert_eq!(
        read_pid_file("/p", Ok("-7".to_string())).expect("a number"),
        -7
    );
    let err = read_pid_file("/p", Ok("forty".to_string())).unwrap_err();
    assert!(err.to_text().starts_with("invalid pid in file '/p': "));
    let err = read_pid_file("/p", Err("gone".to_string())).unwrap_err();
    assert_eq!(err.to_text(), "failed to read pid file '/p': gone");
    assert_eq!(pid_file_text(42), "42\n");
    assert_eq!(check_pid(7).expect("fits"), 7);
    assert!(check_pid(u32::MAX).is_err());
}

#[test]
fn configurations_are_looked_at_before_the_start() {
    let known = Some(layout());
    let path = layout().default_config_path();
    assert!(check_daemon_config(&path, ConfigFile::Valid, &known).is_ok());
    let err = check_daemon_config(&path, ConfigFile::Missing, &known).unwrap_err();
    assert!(err.to_text().ends_with("Run `neuroctl install` to bootstrap defaults."));
    let err = check_daemon_config("/x.toml", ConfigFile::Missing, &known).unwrap_err();
    assert_eq!(
        err.to_text(),
        "config file '/x.toml' was not found. Run `neuroctl install --config /x.toml` to bootstrap defaults for this path."
    );
    let err = check_daemon_config("/x", ConfigFile::Directory, &None).unwrap_err();
    assert!(err.to_text().contains("is a directory"));
    let err =
        check_daemon_config("/x", ConfigFile::Unreadable("locked".to_string()), &None).unwrap_err();
    assert_eq!(err.to_text(), "failed to read config '/x': locked");
    let err =
        check_daemon_config("/x", ConfigFile::Invalid("bad".to_string()), &None).unwrap_err();
    assert!(err.to_text().starts_with("config '/x' is invalid: bad. Run"));
    assert_eq!(err.exit_code(), 2);
}

#[test]
fn keys_come_from_the_environment_or_a_file() {
    let env = Some(" from-env ".to_string());
    let found = resolve_provider_key(&target(), env, Ok(None)).expect("a key");
    assert_eq!(found, ("GROQ_API_KEY".to_string(), "from-env".to_string()));
    let file = Ok(Some("from-file\n".to_string()));
    let found = resolve_provider_key(&target(), Some(" ".to_string()), file).expect("a key");
    assert_eq!(found.1, "from-file");
    let err = resolve_provider_key(&target(), None, Ok(None)).unwrap_err();
    assert!(err.to_text().contains("Expected 'GROQ_API_KEY' env var or key file"));
    let err = resolve_provider_key(&target(), None, Err("locked".to_string())).unwrap_err();
    assert_eq!(err.exit_code(), 3);
}

#[test]
fn programs_are_looked_for_in_order() {
    let some = |s: &str| Some(s.to_string());
    let bin = |a, b, c, d| resolve_daemon_bin(a, b, c, d);
    assert_eq!(bin(some("a"), some("b"), some("c"), true).unwrap(), "a");
    assert_eq!(bin(None, some("b"), some("c"), true).unwrap(), "b");
    assert_eq!(bin(None, None, some("c"), true).unwrap(), "c");
    assert_eq!(
        bin(None, None, None, true).unwrap(),
        "target/debug/neuromancerd"
    );
    assert!(bin(None, None, None, false).is_err());
}

#[test]
fn one_daemon_at_a_time() {
    assert!(check_not_running(Some(7), true).is_err());
    assert_eq!(check_not_running(Some(7), false).expect("stale"), true);
    assert_eq!(check_not_running(None, false).expect("none"), false);
    assert!(check_stoppable(7, true).is_ok());
    assert_eq!(
        check_stoppable(7, false).unwrap_err().to_text(),
        "daemon pid 7 is not running; removed stale pid file"
    );
}

#[test]
fn a_start_waits_for_a_sign_of_life() {
    assert!(matches!(startup_step(7, true, true, "/c"), StartupStep::Ready));
    assert!(matches!(startup_step(7, true, false, "/c"), StartupStep::Wait));
    match startup_step(7, false, false, "/c") {
        StartupStep::Fail { error, remove_note } => {
            assert!(remove_note);
            assert_eq!(
                error.to_text(),
                "daemon process exited during startup (pid 7). Check config '/c'."
            );
        }
        other => panic!("unexpected step: {other:?}"),
    }
    match startup_expired(7, true, Duration::from_secs(90), "http://d", None) {
        StartupStep::Fail { error, remove_note } => {
            assert!(!remove_note);
            assert_eq!(
                error.to_text(),
                "daemon started (pid 7) but admin RPC did not become healthy within 1m 30s at 'http://d'. no response"
            );
        }
        other => panic!("unexpected step: {other:?}"),
    }
    assert_eq!(
        readiness_timeout(false, Duration::from_secs(60)),
        Duration::from_secs(5)
    );
    assert_eq!(
        readiness_timeout(true, Duration::from_secs(60)),
        Duration::from_secs(60)
    );
    assert_eq!(start_result(7, "/p", vec![]).healthy, Some(true));
}

#[test]
fn force_is_used_only_when_time_is_up() {
    assert_eq!(stop_step(7, StopPhase::Asked, true, false), StopStep::Wait);
    assert_eq!(stop_step(7, StopPhase::Asked, true, true), StopStep::Force);
    assert!(matches!(
        stop_step(7, StopPhase::Asked, false, false),
        StopStep::Over(result) if result.stopped && !result.forced
    ));
    assert!(matches!(
        stop_step(7, StopPhase::Forced, true, true),
        StopStep::Over(result) if !result.stopped && result.forced
    ));
    assert_eq!(
        signal_failed(7, "SIGTERM").to_text(),
        "failed to send signal SIGTERM to pid 7"
    );
}

#[test]
fn a_daemon_is_looked_at() {
    let status = daemon_status("/p", DaemonSight::NoNote);
    assert_eq!(status.detail.as_deref(), Some("pid file not found"));
    assert!(!status.running);
    let status = daemon_status("/p", DaemonSight::Healthy(7));
    assert_eq!((status.running, status.healthy), (true, Some(true)));
    let status = daemon_status("/p", DaemonSight::Unhealthy(7, "no".to_string()));
    assert_eq!((status.running, status.healthy), (true, Some(false)));
}

// ---- setting up ----------------------------------------------------------------------

#[test]
fn ensure_prompt_file_never_overwrites_existing_file() {
    let mut log = InstallResult::new();
    let plan = log
        .ensure_prompt_file("/dir/SYSTEM.md", true, true)
        .expect("ensure prompt");
    assert_eq!(plan.step, FileStep::Keep);
    assert_eq!(plan.parent, "/dir");
    assert!(log.existing.iter().any(|p| p == "/dir/SYSTEM.md"));
    let plan = log
        .ensure_prompt_file("/new/SYSTEM.md", false, false)
        .expect("ensure prompt");
    assert_eq!(plan.step, FileStep::Write);
    assert_eq!(log.created, vec!["/new", "/new/SYSTEM.md"]);
    assert!(log.ensure_prompt_file("/", true, true).is_err());
}

#[test]
fn ensure_file_from_source_never_overwrites_existing_file() {
    let mut log = InstallResult::new();
    let plan = log
        .ensure_file_from_source("/dir/neuromancer.toml", true, true)
        .expect("ensure from source");
    assert_eq!(plan.step, FileStep::Keep);
    assert!(log.existing.iter().any(|p| p == "/dir/neuromancer.toml"));
}

#[test]
fn overwrite_file_from_source_replaces_existing_file() {
    let mut log = InstallResult::new();
    let plan = log
        .overwrite_file_from_source("/dir/neuromancer.toml", true, true)
        .expect("override from source");
    assert_eq!(plan.step, FileStep::Write);
    assert!(log.overwritten.iter().any(|p| p == "/dir/neuromancer.toml"));
}

#[test]
fn keys_are_asked_for_where_they_are_missing() {
    let mut log = InstallResult::new();
    assert!(!log.begin_provider_keys(0, true));
    assert!(log.begin_provider_keys(1, true));
    assert!(!log.begin_provider_keys(1, false));
    assert_eq!(log.warnings.len(), 3);
    assert!(log.needs_provider_key(&target(), &None));
    assert!(!log.needs_provider_key(&target(), &Some("key".to_string())));
    assert_eq!(log.existing, vec!["/keys/groq.key"]);
    assert!(!log.take_provider_key(&target(), "  "));
    assert!(log.take_provider_key(&target(), "key"));
    assert_eq!(log.created, vec!["/keys/groq.key"]);
    assert_eq!(
        log.warnings[3],
        "No API key provided for provider 'groq' (env var GROQ_API_KEY)."
    );
}

#[test]
fn setting_up_has_its_places() {
    assert_eq!(install_dirs(&layout()).len(), 4);
    let usual = layout().default_config_path();
    assert_eq!(resolve_config_path(None, &layout()), usual);
    assert_eq!(resolve_config_path(Some("/c".to_string()), &layout()), "/c");
    assert!(!needs_own_config(&usual, &layout()));
    assert!(needs_own_config("/c", &layout()));
}

#[test]
fn providers_have_plain_names() {
    assert_eq!(normalize_provider("  OpenAI "), "openai");
    assert_eq!(normalize_provider("\u{c4}"), "\u{e4}");
    assert_eq!(
        provider_env_var("My Provider").as_deref(),
        Some("MY_PROVIDER_API_KEY")
    );
    assert_eq!(provider_env_var("google").as_deref(), Some("GEMINI_API_KEY"));
    assert!(!normalize_for_filename("a/b").contains('/'));
    assert!(provider_key_path(&layout(), "groq").starts_with(&layout().provider_keys_dir()));
    assert_eq!(read_nonempty(Some(" x ".to_string())).as_deref(), Some("x"));
    assert_eq!(read_nonempty(Some(" ".to_string())), None);
    assert_eq!(key_file_text(" x "), "x\n");
}

#[test]
fn names_that_differ_in_case_share_a_key() {
    let path = provider_key_path(&layout(), "groq");
    for name in ["GROQ", " Groq\n", "groq"] {
        let once = normalize_provider(name);
        assert_eq!(once, "groq");
        assert_eq!(normalize_provider(&once), once);
        assert_eq!(provider_key_path(&layout(), name), path);
        assert_eq!(provider_env_var(name).as_deref(), Some("GROQ_API_KEY"));
        assert_eq!(provider_env_var(&once), provider_env_var(name));
    }
    assert_eq!(provider_env_var("Google"), provider_env_var("gemini"));
    for name in ["My Provider", "a.b", "\u{e4}x", "7"] {
        let var = provider_env_var(name).expect("a variable");
        assert!(var.ends_with("_API_KEY"));
        assert!(var
            .chars()
            .all(|c| c.is_ascii_uppercase() || c.is_ascii_digit() || c == '_'));
    }
    assert_eq!(provider_env_var(" Mock "), None);
    assert_eq!(provider_env_var("  "), None);
}

// ---- calls ---------------------------------------------------------------------------

fn reply(id: Option<JsonRpcId>, result: Option<Json>) -> JsonRpcResponse {
    JsonRpcResponse {
        jsonrpc: "2.0".to_string(),
        result,
        error: None,
        id,
    }
}

#[test]
fn calls_go_to_the_daemon() {
    assert_eq!(endpoint("http://d:9090//"), "http://d:9090/rpc");
    assert!(matches!(
        request("  ", None, 1),
        Err(RpcClientError::InvalidRequest(_))
    ));
    let sent = request("admin.health", None, 3).expect("a request");
    assert_eq!(sent.jsonrpc, "2.0");
    assert_eq!(sent.id, Some(JsonRpcId::Number(3)));
}

#[test]
fn only_the_answer_to_a_call_counts() {
    let read = |reply| read_reply("m", 1, reply, "200 OK", "req", "resp");
    let one = || Some(JsonRpcId::Number(1));
    let result = Json::Bool(true);
    assert_eq!(
        read(Ok(reply(one(), Some(Json::Bool(true))))).expect("a result"),
        result
    );
    assert!(matches!(
        read(Ok(reply(Some(JsonRpcId::Number(2)), Some(Json::Null)))),
        Err(RpcClientError::InvalidResponse(said)) if said.starts_with("mismatched response id")
    ));
    assert!(matches!(
        read(Ok(reply(one(), None))),
        Err(RpcClientError::InvalidResponse(said)) if said.contains("(http status: 200 OK)")
    ));
    assert!(matches!(
        read(Err("garbage".to_string())),
        Err(RpcClientError::InvalidResponse(said)) if said.contains("garbage")
    ));
    let refused = JsonRpcResponse::error(one(), -32601, "Method not found".to_string());
    assert!(matches!(
        read(Ok(refused)),
        Err(RpcClientError::Rpc(-32601, said)) if said.starts_with("Method not found. ")
    ));
    let err = JsonRpcError {
        code: -5,
        message: "no".to_string(),
        data: None,
    };
    assert!(matches!(
        map_rpc_error(err, "", ""),
        RpcClientError::Rpc(-5, said) if said.starts_with("no. ")
    ));
    assert!(matches!(
        map_transport_error(TransportFault::Timeout, "e", "m", ""),
        RpcClientError::Transport(said) if said.contains("timed out for method 'm'")
    ));
}

#[test]
fn a_trial_needs_a_name_and_an_answer() {
    let ok = || smoke_turn("t".to_string(), "r".to_string());
    assert!(ok().is_ok());
    assert!(smoke_turn(" ".to_string(), "r".to_string()).is_err());
    assert!(smoke_turn("t".to_string(), "".to_string()).is_err());
    let fault = |s: &str| CliError::Smoke(s.to_string());
    assert!(smoke_outcome(ok(), Ok(())).is_ok());
    assert_eq!(smoke_outcome(ok(), Err(fault("stop"))).unwrap_err().to_text(), "stop");
    let turn: Result<SmokeResult, CliError> = Err(fault("turn"));
    assert_eq!(
        smoke_outcome(turn, Err(fault("stop"))).unwrap_err().to_text(),
        "smoke failed: turn; daemon stop also failed: stop"
    );
    let options = SmokeOptions {
        config: "/c".to_string(),
        daemon_bin: None,
        pid_file: "/p".to_string(),
        addr: "http://d".to_string(),
        timeout: Duration::from_secs(3),
    };
    assert!(options.start_options().wait_healthy);
    assert_eq!(options.stop_options().grace, Duration::from_secs(15));
}

// ---- printing ------------------------------------------------------------------------

#[test]
fn results_are_printed() {
    let text = Json::Text("hello".to_string());
    assert_eq!(success_text(false, &text), "hello");
    assert_eq!(success_text(true, &text), r#"{"ok":true,"result":"hello"}"#);
    let doc = Json::no_fields().with("b", Json::Number("2".to_string()));
    assert_eq!(success_text(false, &doc), "{\n  \"b\": 2\n}");
    assert_eq!(error_text(false, "boom", 3), "error: boom");
    assert_eq!(
        error_text(true, "boom", 3),
        r#"{"error":{"code":3,"message":"boom"},"ok":false}"#
    );
}

#[test]
fn events_are_printed_for_programs() {
    let event = snapshot_event(Json::Null);
    assert_eq!(
        success_text(true, &event),
        r#"{"ok":true,"result":{"event":"snapshot","runs":[],"system_thread":null}}"#
    );
    let event = turn_complete_event("hi", Json::Bool(true), Json::Null);
    assert_eq!(event.get_str("input").as_deref(), Some("hi"));
    assert_eq!(event.get("turn_result"), Some(&Json::Bool(true)));
    let event = turn_error_event("hi", &CliError::Usage("bad".to_string()));
    assert_eq!(event.get_str("event").as_deref(), Some("turn_error"));
    let error = event.get("error").expect("an error");
    assert_eq!(error.get_str("message").as_deref(), Some("bad"));
    assert_eq!(map_io_err("x").to_text(), "chat I/O error: x");
    assert_eq!(map_terminal_err("x").to_text(), "chat terminal error: x");
    assert!(check_terminal(true).is_ok());
    assert_eq!(check_terminal(false).unwrap_err().exit_code(), 2);
    assert_eq!(
        check_demo_terminal(false).unwrap_err().to_text(),
        "demo mode requires a TTY"
    );
}

#[test]
fn lines_of_programs_are_messages() {
    assert_eq!(parse_ndjson_message_line("  \n"), None);
    assert_eq!(
        parse_ndjson_message_line(" plain words \n").as_deref(),
        Some("plain words")
    );
    assert_eq!(parse_ndjson_message_line(r#"{"other":1}"#), None);
    assert_eq!(parse_ndjson_message_line("17"), None);
}

#[test]
fn clipboards_are_cleaned() {
    assert_eq!(clipboard_text(" \n"), None);
    assert_eq!(clipboard_text("a\r\nb\n\n").as_deref(), Some("a\nb"));
    assert_eq!(clipboard_text("a\n ").as_deref(), Some("a\n "));
}

#[test]
fn screens_are_drawn_when_something_changes() {
    let mut frames = Frames::new();
    assert!(frames.needs_redraw);
    frames.drawn(0);
    assert!(!frames.needs_redraw);
    assert_eq!(frames.wait(false, 0), IDLE_POLL_INTERVAL);
    assert_eq!(frames.wait(true, 0), PENDING_POLL_INTERVAL);
    frames.follow(true, 100);
    assert!(frames.needs_redraw);
    frames.drawn(100);
    assert_eq!(frames.wait(true, 100), ANIMATION_FRAME_INTERVAL);
    assert_eq!(frames.wait(true, 101), ANIMATION_FRAME_INTERVAL - 1);
    frames.idle(100);
    assert!(!frames.needs_redraw);
    frames.idle(100 + ANIMATION_FRAME_INTERVAL);
    assert!(frames.needs_redraw);
    frames.drawn(200);
    frames.changed();
    assert!(frames.needs_redraw);
    frames.follow(false, 200);
    assert_eq!(frames.next_animation_tick, None);
}

#[test]
fn failed_calls_are_told_apart() {
    let words = "w".to_string();
    assert_eq!(
        RpcClientError::Transport(words.clone()).to_text(),
        "transport error: w"
    );
    assert_eq!(
        RpcClientError::InvalidRequest(words.clone()).to_text(),
        "invalid request: w"
    );
    assert_eq!(
        RpcClientError::InvalidResponse(words.clone()).to_text(),
        "invalid response: w"
    );
    assert_eq!(
        RpcClientError::Rpc(-32601, words).to_text(),
        "rpc error -32601: w"
    );
}

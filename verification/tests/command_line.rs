//! The command line is read as clap reads it.

use clap::builder::ValueParser;
use clap::error::ErrorKind;
use clap::{Arg, ArgAction, ArgMatches};
use neuromancer::cli::commands::{
    Command, ConfigCommand, DaemonCommand, E2eCommand, OrchestratorCommand,
    OrchestratorEventsCommand, OrchestratorReportsCommand, OrchestratorRunsCommand,
    OrchestratorStatsCommand, OrchestratorSubagentCommand, OrchestratorThreadsCommand, RpcCommand,
};
use neuromancer::cli::grammar::UsageError;
use neuromancer::cli::Cli;
use neuromancer::time::Duration;

fn option(name: &'static str) -> Arg {
    Arg::new(name).long(name).value_parser(ValueParser::string())
}

fn path(name: &'static str) -> Arg {
    Arg::new(name).long(name).value_parser(ValueParser::path_buf())
}

fn number(name: &'static str) -> Arg {
    Arg::new(name)
        .long(name)
        .value_parser(|text: &str| text.parse::<usize>())
}

fn span(name: &'static str, otherwise: &'static str) -> Arg {
    Arg::new(name)
        .long(name)
        .default_value(otherwise)
        .value_parser(|text: &str| humantime::parse_duration(text))
}

fn flag(name: &'static str) -> Arg {
    Arg::new(name).long(name).action(ArgAction::SetTrue)
}

fn word(name: &'static str) -> Arg {
    Arg::new(name).required(true).value_parser(ValueParser::string())
}

fn pid_file() -> Arg {
    path("pid-file").default_value("/tmp/neuromancer.pid")
}

fn leaf(name: &'static str, args: Vec<Arg>) -> clap::Command {
    clap::Command::new(name).args(args)
}

fn group(name: &'static str, commands: Vec<clap::Command>) -> clap::Command {
    clap::Command::new(name)
        .subcommand_required(true)
        .arg_required_else_help(true)
        .subcommands(commands)
}

fn grammar() -> clap::Command {
    let daemon = group(
        "daemon",
        vec![
            leaf(
                "start",
                vec![path("config"), path("daemon-bin"), pid_file(), flag("wait-healthy")],
            ),
            leaf(
                "restart",
                vec![
                    path("config"),
                    path("daemon-bin"),
                    pid_file(),
                    span("grace", "15s"),
                    flag("wait-healthy"),
                ],
            ),
            leaf("stop", vec![pid_file(), span("grace", "15s")]),
            leaf("status", vec![pid_file()]),
        ],
    );
    let runs = group(
        "runs",
        vec![
            leaf("list", vec![]),
            leaf("get", vec![word("run_id")]),
            leaf("diagnose", vec![word("run_id")]),
        ],
    );
    let events = group(
        "events",
        vec![leaf(
            "query",
            vec![
                option("thread-id"),
                option("run-id"),
                option("agent-id"),
                option("tool-id"),
                option("event-type"),
                option("error-contains"),
                number("offset"),
                number("limit"),
            ],
        )],
    );
    let reports = group(
        "reports",
        vec![leaf(
            "query",
            vec![
                option("thread-id"),
                option("run-id"),
                option("agent-id"),
                option("report-type"),
                Arg::new("include-remediation")
                    .long("include-remediation")
                    .value_parser(ValueParser::bool()),
                number("offset"),
                number("limit"),
            ],
        )],
    );
    let threads = group(
        "threads",
        vec![
            leaf("list", vec![]),
            leaf(
                "get",
                vec![word("thread_id"), number("offset"), number("limit")],
            ),
            leaf("resurrect", vec![word("thread_id")]),
        ],
    );
    let subagent = group(
        "subagent",
        vec![leaf(
            "turn",
            vec![option("thread-id").required(true), word("message")],
        )],
    );
    let orchestrator = group(
        "orchestrator",
        vec![
            leaf("turn", vec![word("message")]),
            leaf("chat", vec![]),
            runs,
            events,
            reports,
            group("stats", vec![leaf("get", vec![])]),
            threads,
            subagent,
        ],
    );
    group(
        "neuroctl",
        vec![
            leaf("install", vec![path("config"), flag("override-config")]),
            daemon,
            leaf("health", vec![]),
            group("config", vec![leaf("reload", vec![])]),
            group(
                "rpc",
                vec![leaf(
                    "call",
                    vec![option("method").required(true), option("params")],
                )],
            ),
            group(
                "e2e",
                vec![leaf(
                    "smoke",
                    vec![path("config"), path("daemon-bin"), pid_file()],
                )],
            ),
            orchestrator,
        ],
    )
    .version("0.1.0")
    .args(vec![
        option("addr").default_value("http://127.0.0.1:9090"),
        flag("json"),
        span("timeout", "10s"),
    ])
}

// ---- what was read, as words -------------------------------------------------------------

fn shown(name: &str, value: impl std::fmt::Debug) -> String {
    format!("{name}={value:?}")
}

fn text_of(matches: &ArgMatches, name: &str) -> String {
    shown(name, matches.get_one::<String>(name))
}

fn path_of(matches: &ArgMatches, name: &str) -> String {
    let path = matches
        .get_one::<std::path::PathBuf>(name)
        .map(|path| path.display().to_string());
    shown(name, path.as_ref())
}

fn number_of(matches: &ArgMatches, name: &str) -> String {
    shown(name, matches.get_one::<usize>(name))
}

fn span_of(matches: &ArgMatches, name: &str) -> String {
    let span = matches
        .get_one::<std::time::Duration>(name)
        .map(|span| (span.as_secs(), span.subsec_nanos()));
    shown(name, span)
}

fn read_by_clap(matches: &ArgMatches) -> Vec<String> {
    let mut out = vec![
        text_of(matches, "addr"),
        shown("json", matches.get_flag("json")),
        span_of(matches, "timeout"),
    ];
    let mut names = Vec::new();
    let mut at = matches;
    while let Some((name, inner)) = at.subcommand() {
        names.push(name.to_string());
        at = inner;
    }
    let place = names.join(" ");
    out.push(place.clone());
    let m = at;
    match place.as_str() {
        "install" => out.extend([
            path_of(m, "config"),
            shown("override-config", m.get_flag("override-config")),
        ]),
        "daemon start" => out.extend([
            path_of(m, "config"),
            path_of(m, "daemon-bin"),
            path_of(m, "pid-file"),
            shown("wait-healthy", m.get_flag("wait-healthy")),
        ]),
        "daemon restart" => out.extend([
            path_of(m, "config"),
            path_of(m, "daemon-bin"),
            path_of(m, "pid-file"),
            span_of(m, "grace"),
            shown("wait-healthy", m.get_flag("wait-healthy")),
        ]),
        "daemon stop" => out.extend([path_of(m, "pid-file"), span_of(m, "grace")]),
        "daemon status" => out.push(path_of(m, "pid-file")),
        "rpc call" => out.extend([text_of(m, "method"), text_of(m, "params")]),
        "e2e smoke" => out.extend([
            path_of(m, "config"),
            path_of(m, "daemon-bin"),
            path_of(m, "pid-file"),
        ]),
        "orchestrator turn" => out.push(text_of(m, "message")),
        "orchestrator runs get" | "orchestrator runs diagnose" => out.push(text_of(m, "run_id")),
        "orchestrator events query" => out.extend([
            text_of(m, "thread-id"),
            text_of(m, "run-id"),
            text_of(m, "agent-id"),
            text_of(m, "tool-id"),
            text_of(m, "event-type"),
            text_of(m, "error-contains"),
            number_of(m, "offset"),
            number_of(m, "limit"),
        ]),
        "orchestrator reports query" => out.extend([
            text_of(m, "thread-id"),
            text_of(m, "run-id"),
            text_of(m, "agent-id"),
            text_of(m, "report-type"),
            shown(
                "include-remediation",
                m.get_one::<bool>("include-remediation"),
            ),
            number_of(m, "offset"),
            number_of(m, "limit"),
        ]),
        "orchestrator threads get" => out.extend([
            text_of(m, "thread_id"),
            number_of(m, "offset"),
            number_of(m, "limit"),
        ]),
        "orchestrator threads resurrect" => out.push(text_of(m, "thread_id")),
        "orchestrator subagent turn" => {
            out.extend([text_of(m, "thread-id"), text_of(m, "message")])
        }
        _ => {}
    }
    out
}

fn own_span(name: &str, span: Duration) -> String {
    shown(name, Some((span.secs, span.nanos)))
}

fn read_by_us(cli: &Cli) -> Vec<String> {
    let mut out = vec![
        shown("addr", Some(&cli.addr)),
        shown("json", cli.json),
        own_span("timeout", cli.timeout),
    ];
    let mut add = |place: &str, values: Vec<String>| {
        out.push(place.to_string());
        out.extend(values);
    };
    match &cli.command {
        Command::Install(a) => add(
            "install",
            vec![
                shown("config", a.config.as_ref()),
                shown("override-config", a.override_config),
            ],
        ),
        Command::Daemon { command } => match command {
            DaemonCommand::Start(a) => add(
                "daemon start",
                vec![
                    shown("config", a.config.as_ref()),
                    shown("daemon-bin", a.daemon_bin.as_ref()),
                    shown("pid-file", Some(&a.pid_file)),
                    shown("wait-healthy", a.wait_healthy),
                ],
            ),
            DaemonCommand::Restart(a) => add(
                "daemon restart",
                vec![
                    shown("config", a.config.as_ref()),
                    shown("daemon-bin", a.daemon_bin.as_ref()),
                    shown("pid-file", Some(&a.pid_file)),
                    own_span("grace", a.grace),
                    shown("wait-healthy", a.wait_healthy),
                ],
            ),
            DaemonCommand::Stop(a) => add(
                "daemon stop",
                vec![shown("pid-file", Some(&a.pid_file)), own_span("grace", a.grace)],
            ),
            DaemonCommand::Status(a) => add(
                "daemon status",
                vec![shown("pid-file", Some(&a.pid_file))],
            ),
        },
        Command::Health => add("health", vec![]),
        Command::Config { command } => match command {
            ConfigCommand::Reload => add("config reload", vec![]),
        },
        Command::Rpc { command } => match command {
            RpcCommand::Call(a) => add(
                "rpc call",
                vec![
                    shown("method", Some(&a.method)),
                    shown("params", a.params.as_ref()),
                ],
            ),
        },
        Command::E2e { command } => match command {
            E2eCommand::Smoke(a) => add(
                "e2e smoke",
                vec![
                    shown("config", a.config.as_ref()),
                    shown("daemon-bin", a.daemon_bin.as_ref()),
                    shown("pid-file", Some(&a.pid_file)),
                ],
            ),
        },
        Command::Orchestrator { command } => match command {
            OrchestratorCommand::Turn(a) => add(
                "orchestrator turn",
                vec![shown("message", Some(&a.message))],
            ),
            OrchestratorCommand::Chat(_) => add("orchestrator chat", vec![]),
            OrchestratorCommand::Runs { command } => match command {
                OrchestratorRunsCommand::List => add("orchestrator runs list", vec![]),
                OrchestratorRunsCommand::Get(a) => add(
                    "orchestrator runs get",
                    vec![shown("run_id", Some(&a.run_id))],
                ),
                OrchestratorRunsCommand::Diagnose(a) => add(
                    "orchestrator runs diagnose",
                    vec![shown("run_id", Some(&a.run_id))],
                ),
            },
            OrchestratorCommand::Events { command } => match command {
                OrchestratorEventsCommand::Query(a) => add(
                    "orchestrator events query",
                    vec![
                        shown("thread-id", a.thread_id.as_ref()),
                        shown("run-id", a.run_id.as_ref()),
                        shown("agent-id", a.agent_id.as_ref()),
                        shown("tool-id", a.tool_id.as_ref()),
                        shown("event-type", a.event_type.as_ref()),
                        shown("error-contains", a.error_contains.as_ref()),
                        shown("offset", a.offset.as_ref()),
                        shown("limit", a.limit.as_ref()),
                    ],
                ),
            },
            OrchestratorCommand::Reports { command } => match command {
                OrchestratorReportsCommand::Query(a) => add(
                    "orchestrator reports query",
                    vec![
                        shown("thread-id", a.thread_id.as_ref()),
                        shown("run-id", a.run_id.as_ref()),
                        shown("agent-id", a.agent_id.as_ref()),
                        shown("report-type", a.report_type.as_ref()),
                        shown("include-remediation", a.include_remediation.as_ref()),
                        shown("offset", a.offset.as_ref()),
                        shown("limit", a.limit.as_ref()),
                    ],
                ),
            },
            OrchestratorCommand::Stats { command } => match command {
                OrchestratorStatsCommand::Get => add("orchestrator stats get", vec![]),
            },
            OrchestratorCommand::Threads { command } => match command {
                OrchestratorThreadsCommand::List => add("orchestrator threads list", vec![]),
                OrchestratorThreadsCommand::Get(a) => add(
                    "orchestrator threads get",
                    vec![
                        shown("thread_id", Some(&a.thread_id)),
                        shown("offset", a.offset.as_ref()),
                        shown("limit", a.limit.as_ref()),
                    ],
                ),
                OrchestratorThreadsCommand::Resurrect(a) => add(
                    "orchestrator threads resurrect",
                    vec![shown("thread_id", Some(&a.thread_id))],
                ),
            },
            OrchestratorCommand::Subagent { command } => match command {
                OrchestratorSubagentCommand::Turn(a) => add(
                    "orchestrator subagent turn",
                    vec![
                        shown("thread-id", Some(&a.thread_id)),
                        shown("message", Some(&a.message)),
                    ],
                ),
            },
        },
    }
    out
}

/// What clap makes of arguments, and what the library makes of them.
fn both(grammar: &clap::Command, args: &[&str]) -> (Vec<String>, Vec<String>) {
    let all: Vec<String> = std::iter::once("neuroctl")
        .chain(args.iter().copied())
        .map(|arg| arg.to_string())
        .collect();
    let theirs = match grammar.clone().try_get_matches_from(&all) {
        Ok(matches) => read_by_clap(&matches),
        Err(err) => vec![match err.kind() {
            ErrorKind::DisplayHelp => "help".to_string(),
            ErrorKind::DisplayVersion => "version".to_string(),
            _ => "invalid".to_string(),
        }],
    };
    let ours = match Cli::try_parse_from(all) {
        Ok(cli) => read_by_us(&cli),
        Err(UsageError::Help) => vec!["help".to_string()],
        Err(UsageError::Version) => vec!["version".to_string()],
        Err(UsageError::Invalid) => vec!["invalid".to_string()],
    };
    (theirs, ours)
}

const STARTS: [&[&str]; 30] = [
    &[],
    &["help"],
    &["help", "orchestrator"],
    &["orchestrator", "help", "runs"],
    &["-hV"],
    &["install"],
    &["daemon"],
    &["daemon", "start"],
    &["daemon", "restart"],
    &["daemon", "stop"],
    &["daemon", "status"],
    &["health"],
    &["config"],
    &["config", "reload"],
    &["rpc"],
    &["rpc", "call"],
    &["e2e", "smoke"],
    &["orchestrator"],
    &["orchestrator", "turn"],
    &["orchestrator", "chat"],
    &["orchestrator", "runs", "list"],
    &["orchestrator", "runs", "get"],
    &["orchestrator", "runs", "diagnose"],
    &["orchestrator", "events", "query"],
    &["orchestrator", "reports", "query"],
    &["orchestrator", "stats", "get"],
    &["orchestrator", "threads", "list"],
    &["orchestrator", "threads", "get"],
    &["orchestrator", "threads", "resurrect"],
    &["orchestrator", "subagent", "turn"],
];

const PIECES: [&str; 74] = [
    "start",
    "runs",
    "daemon",
    "get",
    "x",
    "",
    "-",
    "--",
    "---",
    "-x",
    "-5",
    "5",
    "+5",
    "05",
    "1e3",
    "-h",
    "--help",
    "--help=x",
    "-V",
    "--version",
    "-hV",
    "-hx",
    "-xh",
    "help",
    "version",
    "--addr",
    "--addr=",
    "--addr=a=b",
    "--json",
    "--json=true",
    "--jso",
    "--timeout",
    "--timeout=5s",
    "--timeout=bad",
    "3s",
    "--config",
    "--config=",
    "--config=c",
    "--daemon-bin",
    "--daemon-bin=d",
    "--pid-file",
    "--pid-file=p",
    "--grace",
    "--grace=1m",
    "--grace=",
    "--wait-healthy",
    "--override-config",
    "--method",
    "--method=m",
    "--method=",
    "--params",
    "--params={}",
    "--thread-id",
    "--thread-id=t",
    "--run-id=r",
    "--agent-id",
    "--tool-id=",
    "--event-type=e",
    "--error-contains",
    "--report-type",
    "--include-remediation",
    "--include-remediation=true",
    "--include-remediation=yes",
    "true",
    "--offset",
    "--offset=7",
    "--offset=x",
    "--limit",
    "--limit=+3",
    "--limit=-3",
    "--=x",
    "--x",
    "health",
    "é",
];

struct Draws(u64);

impl Draws {
    fn below(&mut self, n: usize) -> usize {
        self.0 = self
            .0
            .wrapping_mul(6364136223846793005)
            .wrapping_add(1442695040888963407);
        ((self.0 >> 33) as usize) % n
    }
}

/// Where the two disagree.
fn differences(grammar: &clap::Command, args: &[&str], found: &mut Vec<String>) {
    let (theirs, ours) = both(grammar, args);
    if theirs != ours {
        found.push(format!("{args:?}: clap {theirs:?}, here {ours:?}"));
    }
}

#[test]
fn one_argument_behind_each_command() {
    let grammar = grammar();
    let mut found = Vec::new();
    for start in STARTS {
        differences(&grammar, start, &mut found);
        for piece in PIECES {
            let mut args = start.to_vec();
            args.push(piece);
            differences(&grammar, &args, &mut found);
        }
    }
    assert!(found.is_empty(), "{}", found.join("\n"));
}

#[test]
fn many_arguments_in_any_place() {
    let grammar = grammar();
    let mut draws = Draws(7);
    let mut found = Vec::new();
    for _ in 0..20000 {
        let mut args: Vec<&str> = Vec::new();
        for _ in 0..draws.below(5) {
            args.push(
                ["--json", "--addr=a", "--timeout=2s", "--addr", "--timeout", "x"][draws.below(6)],
            );
        }
        args.extend(STARTS[draws.below(STARTS.len())]);
        for _ in 0..draws.below(5) {
            args.push(PIECES[draws.below(PIECES.len())]);
        }
        differences(&grammar, &args, &mut found);
    }
    assert!(found.is_empty(), "{}", found.join("\n"));
}

const FRONTS: [&[&str]; 18] = [
    &["--addr", "a", "--addr", "b"],
    &["--addr=a", "--addr", "b"],
    &["--addr", "a", "--addr=b"],
    &["--timeout", "bad"],
    &["--timeout=bad"],
    &["--timeout", "1s", "--timeout", "2s"],
    &["--timeout", "bad", "--json"],
    &["--timeout", "bad", "--json", "--json"],
    &["--json", "--timeout", "bad"],
    &["--json", "--json"],
    &["--timeout", "bad", "--addr", "a"],
    &["--addr", "a", "--timeout", "bad"],
    &["--timeout", "bad", "--help"],
    &["--timeout", "bad", "--"],
    &["--timeout", "bad", "--x"],
    &["--timeout", ""],
    &["--timeout", "-"],
    &["--addr", "health", "--addr", "health"],
];

#[test]
fn faults_in_front_of_a_command() {
    let grammar = grammar();
    let mut found = Vec::new();
    let behind: [&[&str]; 10] = [
        &[],
        &["-h"],
        &["--help"],
        &["help"],
        &["-V"],
        &["x"],
        &["x", "--help"],
        &["--json"],
        &["--"],
        &["--thread-id=t", "m", "--help"],
    ];
    for front in FRONTS {
        for start in STARTS {
            for tail in behind {
                let args = [front, start, tail].concat();
                differences(&grammar, &args, &mut found);
            }
        }
    }
    assert!(found.is_empty(), "{}", found.join("\n"));
    let (_, asks) = both(&grammar, &["--addr", "a", "--addr", "b", "health", "--help"]);
    assert_eq!(asks, ["help"]);
    let (_, refused) = both(&grammar, &["--addr", "a", "--addr", "b", "health"]);
    assert_eq!(refused, ["invalid"]);
}

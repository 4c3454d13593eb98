//! The command line client.

pub mod commands;
pub mod daemon;
pub mod error;
pub mod grammar;
pub mod install;
pub mod output;
pub mod provider_keys;
pub mod rpc_client;
pub mod smoke;
pub mod span;

use vstd::prelude::*;
use crate::cli::commands::Command;
use crate::cli::grammar::{
    duration_read, flags_are_taken, group_grammar, is_dashed, is_span, no_level,
    options_are_taken_with_their_values, or_default, parse_command, read_span, scan, scan_level,
    span_of, verdict_behind, words_are_taken, Commands, Grammar, GrammarView, LevelView, Scan,
    UsageError, Verdict,
};
use crate::text::views;
use crate::time::Duration;

verus! {

/// Where the daemon is reached if nothing else is said.
pub const DEFAULT_ADDR: &'static str = "http://127.0.0.1:9090";

/// Neuromancer control CLI over JSON-RPC.
#[derive(Debug)]
pub struct Cli {
    /// Daemon admin API base URL.
    pub addr: String,
    /// Emit stable JSON envelopes.
    pub json: bool,
    /// Request timeout for RPC calls.
    pub timeout: Duration,
    pub command: Command,
}

/// The options of `neuroctl` itself.
pub open spec fn top_grammar() -> GrammarView {
    GrammarView {
        options: seq!["addr"@, "timeout"@],
        flags: seq!["json"@],
        spans: seq!["timeout"@],
        has_version: true,
        ..group_grammar()
    }
}

/// What becomes of the arguments of `neuroctl`.
pub open spec fn cli_verdict(args: Seq<Seq<char>>) -> Verdict {
    match scan(args, top_grammar(), no_level(), false) {
        Scan::Level(level) => if level.rest.len() == 0 || !is_span(level.value("timeout"@)) {
            Verdict::Invalid
        } else {
            verdict_behind(level, Command::verdict(level.rest[0], level.rest.drop_first()))
        },
        Scan::Help => Verdict::Help,
        Scan::Version => Verdict::Version,
        Scan::Invalid => Verdict::Invalid,
    }
}

impl Cli {
    /// This is what the arguments say.
    pub open spec fn says(self, args: Seq<Seq<char>>) -> bool {
        &&& scan(args, top_grammar(), no_level(), false) matches Scan::Level(level)
        &&& self.addr@ == or_default(level.value("addr"@), DEFAULT_ADDR@)
        &&& self.json == level.flags.contains("json"@)
        &&& self.timeout == span_of(level.value("timeout"@), 10)
        &&& level.rest.len() > 0
        &&& self.command.says(level.rest[0], level.rest.drop_first())
    }

    /// Reads the arguments of a process. The first is the name of the program.
    pub fn try_parse_from(args: Vec<String>) -> (r: Result<Cli, UsageError>)
        ensures
            ({
                let given = if args@.len() == 0 {
                    Seq::empty()
                } else {
                    views(args@).drop_first()
                };
                match r {
                    Ok(cli) => cli_verdict(given) is Accepted && cli.says(given),
                    Err(e) => cli_verdict(given) == e.verdict(),
                }
            }),
    {
        let mut rest = args;
        if rest.len() > 0 {
            let _ = rest.remove(0);
            assert(views(rest@) =~= views(args@).drop_first());
        } else {
            assert(views(rest@) =~= Seq::empty());
        }
        Self::parse_args(&rest)
    }

    fn parse_args(args: &Vec<String>) -> (r: Result<Cli, UsageError>)
        ensures
            match r {
                Ok(cli) => cli_verdict(views(args@)) is Accepted && cli.says(views(args@)),
                Err(e) => cli_verdict(views(args@)) == e.verdict(),
            },
    {
        let mut grammar = Grammar::of_group();
        grammar.options = vec!["addr".to_owned(), "timeout".to_owned()];
        grammar.flags = vec!["json".to_owned()];
        grammar.spans = vec!["timeout".to_owned()];
        grammar.has_version = true;
        assert(grammar@ =~= top_grammar());
        let level = match scan_level(args, &grammar) {
            Ok(level) => level,
            Err(e) => {
                return Err(e);
            },
        };
        let addr = match level.get("addr") {
            Some(addr) => addr,
            None => DEFAULT_ADDR.to_owned(),
        };
        let json = level.has("json");
        let timeout = match read_span(level.get("timeout"), 10) {
            Some(timeout) => timeout,
            None => {
                return Err(UsageError::Invalid);
            },
        };
        match parse_command::<Command>(level) {
            Ok(command) => Ok(Cli { addr, json, timeout, command }),
            Err(e) => Err(e),
        }
    }
}

/// What is given in front of a command is what [`Cli`] holds: the address, whether to answer in JSON
/// and the time to wait; what is not given has its default. The command is named by the first word.
pub proof fn options_stand_in_front_of_the_command(
    cli: Cli,
    value: Seq<char>,
    word: Seq<char>,
    rest: Seq<Seq<char>>,
)
    requires
        !is_dashed(value),
        !is_dashed(word),
    ensures
        cli.says(seq![word] + rest) ==> cli.addr@ == "http://127.0.0.1:9090"@ && !cli.json
            && cli.timeout == Duration::from_secs(10) && cli.command.says(word, rest),
        cli.says(seq!["--addr"@, value] + (seq![word] + rest)) ==> cli.addr@ == value && !cli.json
            && cli.timeout == Duration::from_secs(10) && cli.command.says(word, rest),
        cli.says(seq!["--json"@] + (seq![word] + rest)) ==> cli.json && cli.addr@
            == "http://127.0.0.1:9090"@ && cli.command.says(word, rest),
        duration_read(value) matches Ok(d) ==> cli.says(
            seq!["--timeout"@, value] + (seq![word] + rest),
        ) ==> cli.timeout == d && cli.addr@ == "http://127.0.0.1:9090"@ && !cli.json
            && cli.command.says(word, rest),
        cli_verdict(seq![word] + rest) == Command::verdict(word, rest),
        cli_verdict(seq!["--addr"@, value] + (seq![word] + rest)) == Command::verdict(word, rest),
        cli_verdict(seq!["--json"@] + (seq![word] + rest)) == Command::verdict(word, rest),
        cli_verdict(Seq::empty()) is Invalid,
{
    reveal_strlit("--");
    reveal_strlit("addr");
    reveal_strlit("json");
    reveal_strlit("timeout");
    reveal_strlit("help");
    reveal_strlit("version");
    reveal_strlit("--addr");
    reveal_strlit("--json");
    reveal_strlit("--timeout");
    assert("addr"@.len() == 4 && "json"@.len() == 4 && "help"@.len() == 4 && "timeout"@.len() == 7
        && "version"@.len() == 7);
    assert("addr"@[0] == 'a' && "json"@[0] == 'j' && "help"@[0] == 'h' && "timeout"@[0] == 't'
        && "version"@[0] == 'v');
    assert("--addr"@ =~= "--"@ + "addr"@);
    assert("--json"@ =~= "--"@ + "json"@);
    assert("--timeout"@ =~= "--"@ + "timeout"@);
    let g = top_grammar();
    assert(g.options[0] == "addr"@);
    assert(g.options[1] == "timeout"@);
    assert(g.flags[0] == "json"@);
    let behind = seq![word] + rest;
    assert(behind[0] == word);
    assert(behind.drop_first() =~= rest);
    reveal_with_fuel(crate::cli::grammar::value_in, 3);
    words_are_taken(word, rest, g, no_level());
    options_are_taken_with_their_values("addr"@, value, behind, g, no_level());
    let addressed = LevelView {
        values: no_level().values.push(("addr"@, value)),
        ..no_level()
    };
    assert(addressed.values =~= seq![("addr"@, value)]);
    words_are_taken(word, rest, g, addressed);
    flags_are_taken("json"@, Seq::empty(), behind, g, no_level());
    let flagged = LevelView { flags: no_level().flags.push("json"@), ..no_level() };
    assert(flagged.flags[0] == "json"@);
    words_are_taken(word, rest, g, flagged);
    if duration_read(value) is Ok {
        options_are_taken_with_their_values("timeout"@, value, behind, g, no_level());
        let timed = LevelView {
            values: no_level().values.push(("timeout"@, value)),
            ..no_level()
        };
        assert(timed.values =~= seq![("timeout"@, value)]);
        words_are_taken(word, rest, g, timed);
    }
}

} // verus!

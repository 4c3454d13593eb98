//! How arguments are taken apart: options with values, flags, and words in between.

use vstd::prelude::*;
use crate::cli::span::{is_too_long, too_long};
use crate::text::{
    begins, chars_of, has_prefix, index_from, list_has, opt_view, same, string_of, views,
};
use crate::time::Duration;

verus! {

/// The options that a command has, without the dashes.
#[derive(Debug)]
pub struct Grammar {
    /// Those that take a value.
    pub options: Vec<String>,
    /// Those that take none.
    pub flags: Vec<String>,
    /// Those whose value is a path.
    pub paths: Vec<String>,
    /// Those whose value is a count.
    pub counts: Vec<String>,
    /// Those whose value is true or false.
    pub truths: Vec<String>,
    /// Those whose value is a length of time.
    pub spans: Vec<String>,
    /// How many words there can be.
    pub words: usize,
    /// The first word names a command, and all after it is for that command.
    pub has_commands: bool,
    /// The version can be asked for.
    pub has_version: bool,
}

/// The options that a command has.
#[verifier::ext_equal]
pub struct GrammarView {
    pub options: Seq<Seq<char>>,
    pub flags: Seq<Seq<char>>,
    pub paths: Seq<Seq<char>>,
    pub counts: Seq<Seq<char>>,
    pub truths: Seq<Seq<char>>,
    pub spans: Seq<Seq<char>>,
    pub words: int,
    pub has_commands: bool,
    pub has_version: bool,
}

impl View for Grammar {
    type V = GrammarView;

    open spec fn view(&self) -> GrammarView {
        GrammarView {
            options: views(self.options@),
            flags: views(self.flags@),
            paths: views(self.paths@),
            counts: views(self.counts@),
            truths: views(self.truths@),
            spans: views(self.spans@),
            words: self.words as int,
            has_commands: self.has_commands,
            has_version: self.has_version,
        }
    }
}

/// A command that is given nothing.
pub open spec fn bare_grammar() -> GrammarView {
    GrammarView {
        options: Seq::empty(),
        flags: Seq::empty(),
        paths: Seq::empty(),
        counts: Seq::empty(),
        truths: Seq::empty(),
        spans: Seq::empty(),
        words: 0,
        has_commands: false,
        has_version: false,
    }
}

/// A command that only leads to others.
pub open spec fn group_grammar() -> GrammarView {
    GrammarView { has_commands: true, ..bare_grammar() }
}

impl GrammarView {
    /// A value suits an option.
    pub open spec fn suits(self, name: Seq<char>, value: Seq<char>) -> bool {
        &&& self.paths.contains(name) ==> is_path(Some(value))
        &&& self.counts.contains(name) ==> is_count(Some(value))
        &&& self.truths.contains(name) ==> is_truth(Some(value))
        &&& self.spans.contains(name) ==> is_span(Some(value))
    }
}

impl Grammar {
    pub(crate) fn bare() -> (r: Grammar)
        ensures
            r@ == bare_grammar(),
    {
        let r = Grammar {
            options: Vec::new(),
            flags: Vec::new(),
            paths: Vec::new(),
            counts: Vec::new(),
            truths: Vec::new(),
            spans: Vec::new(),
            words: 0,
            has_commands: false,
            has_version: false,
        };
        assert(r@ =~= bare_grammar());
        r
    }

    pub(crate) fn of_group() -> (r: Grammar)
        ensures
            r@ == group_grammar(),
    {
        let mut r = Self::bare();
        r.has_commands = true;
        assert(r@ =~= group_grammar());
        r
    }

    fn suits(&self, name: &str, value: &str) -> (r: bool)
        ensures
            r == self@.suits(name@, value@),
    {
        if list_has(&self.paths, name) && read_path(Some(value.to_owned())).is_none() {
            return false;
        }
        if list_has(&self.counts, name) && read_count(Some(value.to_owned())).is_none() {
            return false;
        }
        if list_has(&self.truths, name) && read_truth(Some(value.to_owned())).is_none() {
            return false;
        }
        if list_has(&self.spans, name) && read_span(Some(value.to_owned()), 0).is_none() {
            return false;
        }
        true
    }
}

/// What a command was given.
#[derive(Debug)]
pub struct Level {
    pub values: Vec<(String, String)>,
    pub flags: Vec<String>,
    pub words: Vec<String>,
    /// The name of a command and all after it.
    pub rest: Vec<String>,
    /// The value right in front of the command cannot be used.
    pub faulty: bool,
}

/// What a command was given.
#[verifier::ext_equal]
pub struct LevelView {
    pub values: Seq<(Seq<char>, Seq<char>)>,
    pub flags: Seq<Seq<char>>,
    pub words: Seq<Seq<char>>,
    pub rest: Seq<Seq<char>>,
    pub faulty: bool,
}

/// The names and values of a list.
pub open spec fn pair_views(list: Seq<(String, String)>) -> Seq<(Seq<char>, Seq<char>)> {
    Seq::new(list.len(), |i: int| (list[i].0@, list[i].1@))
}

impl View for Level {
    type V = LevelView;

    open spec fn view(&self) -> LevelView {
        LevelView {
            values: pair_views(self.values@),
            flags: views(self.flags@),
            words: views(self.words@),
            rest: views(self.rest@),
            faulty: self.faulty,
        }
    }
}

/// Nothing was given.
pub open spec fn no_level() -> LevelView {
    LevelView {
        values: Seq::empty(),
        flags: Seq::empty(),
        words: Seq::empty(),
        rest: Seq::empty(),
        faulty: false,
    }
}

/// The value that stands first for a name.
pub open spec fn value_in(values: Seq<(Seq<char>, Seq<char>)>, name: Seq<char>) -> Option<Seq<char>>
    decreases values.len(),
{
    if values.len() == 0 {
        None
    } else if values[0].0 == name {
        Some(values[0].1)
    } else {
        value_in(values.drop_first(), name)
    }
}

impl LevelView {
    /// The value of an option, if it was given.
    pub open spec fn value(self, name: Seq<char>) -> Option<Seq<char>> {
        value_in(self.values, name)
    }
}

impl Level {
    pub(crate) fn get(&self, name: &str) -> (r: Option<String>)
        ensures
            opt_view(r) == self@.value(name@),
    {
        let ghost all = pair_views(self.values@);
        let mut i: usize = 0;
        assert(all.skip(0) =~= all);
        while i < self.values.len()
            invariant
                i <= self.values@.len(),
                all == pair_views(self.values@),
                value_in(all, name@) == value_in(all.skip(i as int), name@),
            decreases self.values@.len() - i,
        {
            proof {
                assert(all.skip(i as int)[0] == all[i as int]);
                assert(all.skip(i as int).drop_first() =~= all.skip(i + 1));
            }
            if same(self.values[i].0.as_str(), name) {
                return Some(self.values[i].1.clone());
            }
            i = i + 1;
        }
        None
    }

    pub(crate) fn has(&self, name: &str) -> (r: bool)
        ensures
            r == self@.flags.contains(name@),
    {
        list_has(&self.flags, name)
    }

    pub(crate) fn split_rest(self) -> (r: Option<(String, Vec<String>)>)
        ensures
            match r {
                Some((word, rest)) => self@.rest.len() > 0 && word@ == self@.rest[0] && views(rest@)
                    == self@.rest.drop_first(),
                None => self@.rest.len() == 0,
            },
    {
        let mut rest = self.rest;
        if rest.len() == 0 {
            return None;
        }
        let word = rest.remove(0);
        assert(views(rest@) =~= self@.rest.drop_first());
        Some((word, rest))
    }
}

/// What taking arguments apart comes to.
#[verifier::ext_equal]
pub enum Scan {
    Level(LevelView),
    Help,
    Version,
    Invalid,
}

/// What becomes of arguments.
pub enum Verdict {
    Accepted,
    Help,
    Version,
    Invalid,
}

/// Arguments that say nothing that can be done.
#[derive(Debug, Clone, Copy, PartialEq, Eq, Structural)]
pub enum UsageError {
    /// They ask for help.
    Help,
    /// They ask for the version.
    Version,
    /// They are not valid.
    Invalid,
}

impl UsageError {
    /// What becomes of the arguments.
    pub open spec fn verdict(self) -> Verdict {
        match self {
            UsageError::Help => Verdict::Help,
            UsageError::Version => Verdict::Version,
            UsageError::Invalid => Verdict::Invalid,
        }
    }

    /// What the process ends with.
    pub fn exit_code(self) -> (r: i32)
        ensures
            r == (if self is Invalid {
                2int
            } else {
                0
            }),
    {
        match self {
            UsageError::Invalid => 2,
            _ => 0,
        }
    }
}

/// An argument that looks like an option: it begins with a dash and is more than that.
pub open spec fn is_dashed(arg: Seq<char>) -> bool {
    arg.len() > 1 && arg[0] == '-'
}

/// The name in a long option, without the dashes and without a value behind an equals sign.
pub open spec fn option_name(arg: Seq<char>) -> Seq<char> {
    let body = arg.skip(2);
    body.take(crate::text::char_index(body, '='))
}

/// The value behind the equals sign in a long option.
pub open spec fn option_value(arg: Seq<char>) -> Option<Seq<char>> {
    let body = arg.skip(2);
    let k = crate::text::char_index(body, '=');
    if k < body.len() {
        Some(body.skip(k + 1))
    } else {
        None
    }
}

/// Takes arguments apart, from the front on. No option may be given twice, and each value must suit
/// its option; where a command follows a value of its own that does not, the command is looked at
/// first. After two dashes all that follows is words. Of short options there are `-h` and `-V`; the
/// first letter decides.
pub open spec fn scan(
    args: Seq<Seq<char>>,
    grammar: GrammarView,
    level: LevelView,
    only_words: bool,
) -> Scan
    decreases args.len(),
{
    if args.len() == 0 {
        Scan::Level(level)
    } else {
        let arg = args[0];
        if only_words || !is_dashed(arg) {
            if !grammar.has_commands && level.words.len() >= grammar.words {
                Scan::Invalid
            } else if !grammar.has_commands {
                scan(
                    args.drop_first(),
                    grammar,
                    LevelView { words: level.words.push(arg), ..level },
                    only_words,
                )
            } else if only_words {
                Scan::Invalid
            } else {
                Scan::Level(LevelView { rest: args, ..level })
            }
        } else if arg == "--"@ {
            scan(args.drop_first(), grammar, level, true)
        } else if arg[1] == 'h' || arg == "--help"@ {
            Scan::Help
        } else if grammar.has_version && (arg[1] == 'V' || arg == "--version"@) {
            Scan::Version
        } else if !has_prefix(arg, "--"@) {
            Scan::Invalid
        } else {
            let name = option_name(arg);
            if grammar.flags.contains(name) {
                if option_value(arg) is Some || level.flags.contains(name) {
                    Scan::Invalid
                } else {
                    scan(
                        args.drop_first(),
                        grammar,
                        LevelView { flags: level.flags.push(name), ..level },
                        false,
                    )
                }
            } else if !grammar.options.contains(name) {
                Scan::Invalid
            } else {
                match option_value(arg) {
                    Some(value) => if level.value(name) is Some || !grammar.suits(name, value) {
                        Scan::Invalid
                    } else {
                        scan(
                            args.drop_first(),
                            grammar,
                            LevelView { values: level.values.push((name, value)), ..level },
                            false,
                        )
                    },
                    None => if args.len() < 2 || is_dashed(args[1]) {
                        Scan::Invalid
                    } else if level.value(name) is Some || !grammar.suits(name, args[1]) {
                        if grammar.has_commands && args.len() > 2 && !is_dashed(args[2]) {
                            Scan::Level(LevelView { rest: args.skip(2), faulty: true, ..level })
                        } else {
                            Scan::Invalid
                        }
                    } else {
                        scan(
                            args.skip(2),
                            grammar,
                            LevelView { values: level.values.push((name, args[1])), ..level },
                            false,
                        )
                    },
                }
            }
        }
    }
}

fn looks_dashed(arg: &str) -> (r: bool)
    ensures
        r == is_dashed(arg@),
{
    let chars = chars_of(arg);
    chars.len() > 1 && chars[0] == '-'
}

fn short_name(arg: &str) -> (r: char)
    requires
        is_dashed(arg@),
    ensures
        r == arg@[1],
{
    chars_of(arg)[1]
}

fn split_option(arg: &str) -> (r: (String, Option<String>))
    requires
        has_prefix(arg@, "--"@),
    ensures
        r.0@ == option_name(arg@),
        opt_view(r.1) == option_value(arg@),
{
    proof {
        reveal_strlit("--");
    }
    let chars = chars_of(arg);
    let k = index_from(&chars, '=', 2);
    let ghost body = arg@.skip(2);
    let name = string_of(&chars, 2, k);
    assert(name@ =~= option_name(arg@));
    if k < chars.len() {
        let value = string_of(&chars, k + 1, chars.len());
        assert(value@ =~= body.skip(k - 2 + 1));
        (name, Some(value))
    } else {
        (name, None)
    }
}

fn rest_from(args: &Vec<String>, from: usize) -> (r: Vec<String>)
    requires
        from <= args@.len(),
    ensures
        views(r@) == views(args@).skip(from as int),
{
    let ghost rest = views(args@).skip(from as int);
    let mut r: Vec<String> = Vec::new();
    let mut k: usize = from;
    assert(views(r@) =~= rest.take(0));
    while k < args.len()
        invariant
            from <= k <= args@.len(),
            rest == views(args@).skip(from as int),
            views(r@) == rest.take(k - from),
        decreases args@.len() - k,
    {
        let ghost had = views(r@);
        r.push(args[k].clone());
        proof {
            assert(views(r@) =~= had.push(args@[k as int]@));
            assert(rest.take(k + 1 - from) =~= rest.take(k - from).push(args@[k as int]@));
        }
        k = k + 1;
    }
    assert(rest.take(k - from) =~= rest);
    r
}

/// Takes the arguments of a command apart.
pub fn scan_level(args: &Vec<String>, grammar: &Grammar) -> (r: Result<Level, UsageError>)
    ensures
        match (scan(views(args@), grammar@, no_level(), false), r) {
            (Scan::Level(level), Ok(found)) => found@ == level,
            (Scan::Help, Err(UsageError::Help)) => true,
            (Scan::Version, Err(UsageError::Version)) => true,
            (Scan::Invalid, Err(UsageError::Invalid)) => true,
            _ => false,
        },
{
    let ghost all = views(args@);
    let mut level = Level {
        values: Vec::new(),
        flags: Vec::new(),
        words: Vec::new(),
        rest: Vec::new(),
        faulty: false,
    };
    let mut only_words = false;
    let mut i: usize = 0;
    proof {
        assert(level@ =~= no_level());
        assert(all.skip(0) =~= all);
    }
    while i < args.len()
        invariant
            i <= args@.len(),
            all == views(args@),
            level@.rest == Seq::<Seq<char>>::empty(),
            scan(all, grammar@, no_level(), false) == scan(
                all.skip(i as int),
                grammar@,
                level@,
                only_words,
            ),
        decreases args@.len() - i,
    {
        let arg = args[i].as_str();
        let ghost rest = all.skip(i as int);
        let ghost before = level@;
        proof {
            assert(rest[0] == arg@);
            assert(rest.drop_first() =~= all.skip(i + 1));
            if i + 1 < args@.len() {
                assert(rest[1] == args@[i + 1]@);
                assert(rest.skip(2) =~= all.skip(i + 2));
            }
            if i + 2 < args@.len() {
                assert(rest[2] == args@[i + 2]@);
            }
        }
        if only_words || !looks_dashed(arg) {
            if !grammar.has_commands && level.words.len() >= grammar.words {
                return Err(UsageError::Invalid);
            } else if !grammar.has_commands {
                level.words.push(args[i].clone());
                assert(level@ =~= LevelView { words: before.words.push(arg@), ..before });
                i = i + 1;
            } else if only_words {
                return Err(UsageError::Invalid);
            } else {
                level.rest = rest_from(args, i);
                assert(level@ =~= LevelView { rest, ..before });
                return Ok(level);
            }
        } else if same(arg, "--") {
            only_words = true;
            i = i + 1;
        } else if short_name(arg) == 'h' || same(arg, "--help") {
            return Err(UsageError::Help);
        } else if grammar.has_version && (short_name(arg) == 'V' || same(arg, "--version")) {
            return Err(UsageError::Version);
        } else if !begins(arg, "--") {
            return Err(UsageError::Invalid);
        } else {
            let (name, value) = split_option(arg);
            if list_has(&grammar.flags, name.as_str()) {
                if value.is_some() || level.has(name.as_str()) {
                    return Err(UsageError::Invalid);
                }
                level.flags.push(name);
                assert(level@ =~= LevelView { flags: before.flags.push(name@), ..before });
                i = i + 1;
            } else if !list_has(&grammar.options, name.as_str()) {
                return Err(UsageError::Invalid);
            } else {
                match value {
                    Some(v) => {
                        if level.get(name.as_str()).is_some() || !grammar.suits(
                            name.as_str(),
                            v.as_str(),
                        ) {
                            return Err(UsageError::Invalid);
                        }
                        level.values.push((name, v));
                        assert(level@ =~= LevelView {
                            values: before.values.push((name@, v@)),
                            ..before
                        });
                        i = i + 1;
                    },
                    None => {
                        if i + 1 >= args.len() || looks_dashed(args[i + 1].as_str()) {
                            return Err(UsageError::Invalid);
                        }
                        let v = args[i + 1].clone();
                        if level.get(name.as_str()).is_some() || !grammar.suits(
                            name.as_str(),
                            v.as_str(),
                        ) {
                            if grammar.has_commands && i + 2 < args.len() && !looks_dashed(
                                args[i + 2].as_str(),
                            ) {
                                level.rest = rest_from(args, i + 2);
                                level.faulty = true;
                                assert(level@ =~= LevelView {
                                    rest: rest.skip(2),
                                    faulty: true,
                                    ..before
                                });
                                return Ok(level);
                            }
                            return Err(UsageError::Invalid);
                        }
                        level.values.push((name, v));
                        assert(level@ =~= LevelView {
                            values: before.values.push((name@, v@)),
                            ..before
                        });
                        i = i + 2;
                    },
                }
            }
        }
    }
    assert(all.skip(i as int) =~= Seq::empty());
    Ok(level)
}

// ---- commands ----------------------------------------------------------------------------

/// What a command is given.
pub trait Arguments: Sized {
    /// The options of the command.
    spec fn grammar() -> GrammarView;

    /// The arguments can be read.
    spec fn accepts(level: LevelView) -> bool;

    /// This is what the arguments say.
    spec fn reads(self, level: LevelView) -> bool;

    fn grammar_of() -> (r: Grammar)
        ensures
            r@ == Self::grammar(),
    ;

    fn read(level: &Level) -> (r: Option<Self>)
        ensures
            match r {
                Some(args) => Self::accepts(level@) && args.reads(level@),
                None => !Self::accepts(level@),
            },
    ;
}

/// What becomes of the arguments of a command.
pub open spec fn arguments_verdict<A: Arguments>(args: Seq<Seq<char>>) -> Verdict {
    match scan(args, A::grammar(), no_level(), false) {
        Scan::Level(level) => if A::accepts(level) {
            Verdict::Accepted
        } else {
            Verdict::Invalid
        },
        Scan::Help => Verdict::Help,
        Scan::Version => Verdict::Version,
        Scan::Invalid => Verdict::Invalid,
    }
}

/// This is what the arguments of a command say.
pub open spec fn arguments_say<A: Arguments>(it: A, args: Seq<Seq<char>>) -> bool {
    scan(args, A::grammar(), no_level(), false) matches Scan::Level(level) && it.reads(level)
}

pub(crate) fn parse_arguments<A: Arguments>(args: &Vec<String>) -> (r: Result<A, UsageError>)
    ensures
        match r {
            Ok(it) => arguments_verdict::<A>(views(args@)) is Accepted && arguments_say(
                it,
                views(args@),
            ),
            Err(e) => arguments_verdict::<A>(views(args@)) == e.verdict(),
        },
{
    match scan_level(args, &A::grammar_of()) {
        Ok(level) => match A::read(&level) {
            Some(it) => Ok(it),
            None => Err(UsageError::Invalid),
        },
        Err(e) => Err(e),
    }
}

/// A command that is given nothing.
impl Arguments for () {
    open spec fn grammar() -> GrammarView {
        bare_grammar()
    }

    open spec fn accepts(level: LevelView) -> bool {
        level.words.len() == 0
    }

    open spec fn reads(self, level: LevelView) -> bool {
        true
    }

    fn grammar_of() -> (r: Grammar) {
        Grammar::bare()
    }

    fn read(level: &Level) -> (r: Option<()>) {
        if level.words.len() == 0 {
            Some(())
        } else {
            None
        }
    }
}

/// The commands of a group.
pub trait Commands: Sized {
    /// What becomes of a command and of what it is given.
    spec fn verdict(word: Seq<char>, rest: Seq<Seq<char>>) -> Verdict;

    /// This is what a command and what it is given say.
    spec fn says(self, word: Seq<char>, rest: Seq<Seq<char>>) -> bool;

    fn parse(word: &str, rest: &Vec<String>) -> (r: Result<Self, UsageError>)
        ensures
            match r {
                Ok(it) => Self::verdict(word@, views(rest@)) is Accepted && it.says(
                    word@,
                    views(rest@),
                ),
                Err(e) => Self::verdict(word@, views(rest@)) == e.verdict(),
            },
    ;
}

/// What becomes of arguments that name a command. Where the value in front of the command cannot be
/// used, that is said only if there is nothing to say of the command.
pub open spec fn verdict_behind(level: LevelView, command: Verdict) -> Verdict {
    if level.faulty && command is Accepted {
        Verdict::Invalid
    } else {
        command
    }
}

/// Parses the command behind what a group was given.
pub(crate) fn parse_command<C: Commands>(level: Level) -> (r: Result<C, UsageError>)
    ensures
        match r {
            Ok(it) => level@.rest.len() > 0 && verdict_behind(
                level@,
                C::verdict(level@.rest[0], level@.rest.drop_first()),
            ) is Accepted && it.says(level@.rest[0], level@.rest.drop_first()),
            Err(e) => e.verdict() == (if level@.rest.len() == 0 {
                Verdict::Invalid
            } else {
                verdict_behind(level@, C::verdict(level@.rest[0], level@.rest.drop_first()))
            }),
        },
{
    let faulty = level.faulty;
    match level.split_rest() {
        Some((word, rest)) => match C::parse(word.as_str(), &rest) {
            Ok(it) => if faulty {
                Err(UsageError::Invalid)
            } else {
                Ok(it)
            },
            Err(e) => Err(e),
        },
        None => Err(UsageError::Invalid),
    }
}

/// What becomes of the arguments of a group.
pub open spec fn group_verdict<C: Commands>(args: Seq<Seq<char>>) -> Verdict {
    match scan(args, group_grammar(), no_level(), false) {
        Scan::Level(level) => if level.rest.len() == 0 {
            Verdict::Invalid
        } else {
            verdict_behind(level, C::verdict(level.rest[0], level.rest.drop_first()))
        },
        Scan::Help => Verdict::Help,
        Scan::Version => Verdict::Version,
        Scan::Invalid => Verdict::Invalid,
    }
}

/// This is what the arguments of a group say.
pub open spec fn group_says<C: Commands>(it: C, args: Seq<Seq<char>>) -> bool {
    scan(args, group_grammar(), no_level(), false) matches Scan::Level(level) && level.rest.len()
        > 0 && it.says(level.rest[0], level.rest.drop_first())
}

pub(crate) fn parse_group<C: Commands>(args: &Vec<String>) -> (r: Result<C, UsageError>)
    ensures
        match r {
            Ok(it) => group_verdict::<C>(views(args@)) is Accepted && group_says(it, views(args@)),
            Err(e) => group_verdict::<C>(views(args@)) == e.verdict(),
        },
{
    match scan_level(args, &Grammar::of_group()) {
        Ok(level) => parse_command(level),
        Err(e) => Err(e),
    }
}

// ---- values ------------------------------------------------------------------------------

/// A value, or what stands in for one that is not given.
pub open spec fn or_default(value: Option<Seq<char>>, default: Seq<char>) -> Seq<char> {
    match value {
        Some(s) => s,
        None => default,
    }
}

/// A path that is given is not empty.
pub open spec fn is_path(value: Option<Seq<char>>) -> bool {
    value matches Some(s) ==> s.len() > 0
}

pub(crate) fn read_path(value: Option<String>) -> (r: Option<Option<String>>)
    ensures
        match r {
            Some(path) => is_path(opt_view(value)) && path == value,
            None => !is_path(opt_view(value)),
        },
{
    match value {
        Some(s) => if s.as_str().is_empty() {
            None
        } else {
            Some(Some(s))
        },
        None => Some(None),
    }
}

/// A count, as a number without bound.
pub open spec fn opt_nat(value: Option<usize>) -> Option<nat> {
    match value {
        Some(n) => Some(n as nat),
        None => None,
    }
}

/// The count that a value stands for.
pub open spec fn count_of(value: Option<Seq<char>>) -> Option<nat> {
    match value {
        Some(s) => crate::text::unsigned(s, usize::MAX + 1),
        None => None,
    }
}

/// A count that is given can be read.
pub open spec fn is_count(value: Option<Seq<char>>) -> bool {
    value is Some ==> count_of(value) is Some
}

pub(crate) fn read_count(value: Option<String>) -> (r: Option<Option<usize>>)
    ensures
        match r {
            Some(count) => is_count(opt_view(value)) && count_of(opt_view(value)) == opt_nat(
                count,
            ),
            None => !is_count(opt_view(value)),
        },
{
    match value {
        Some(s) => match crate::text::parse_u64(s.as_str()) {
            Some(n) => if n <= usize::MAX as u64 {
                Some(Some(n as usize))
            } else {
                None
            },
            None => None,
        },
        None => Some(None),
    }
}

/// The truth value that a value stands for.
pub open spec fn truth_of(value: Option<Seq<char>>) -> Option<bool> {
    match value {
        Some(s) => if s == "true"@ {
            Some(true)
        } else if s == "false"@ {
            Some(false)
        } else {
            None
        },
        None => None,
    }
}

/// A truth value that is given can be read.
pub open spec fn is_truth(value: Option<Seq<char>>) -> bool {
    value is Some ==> truth_of(value) is Some
}

pub(crate) fn read_truth(value: Option<String>) -> (r: Option<Option<bool>>)
    ensures
        match r {
            Some(truth) => is_truth(opt_view(value)) && truth_of(opt_view(value)) == truth,
            None => !is_truth(opt_view(value)),
        },
{
    match value {
        Some(s) => if same(s.as_str(), "true") {
            Some(Some(true))
        } else if same(s.as_str(), "false") {
            Some(Some(false))
        } else {
            None
        },
        None => Some(None),
    }
}

/// The length of time that a text such as `15s` or `2h 30m` stands for.
pub uninterp spec fn human_duration(text: Seq<char>) -> Result<Duration, Seq<char>>;

/// `humantime::parse_duration`: its result depends on the text alone. An error is taken as the
/// text that it shows. A text whose spans take longer than a `std::time::Duration` can hold is left
/// out: it is never read, and there are such texts on which the call panics.
#[verifier::external_body]
fn read_human_duration(text: &str) -> (r: Result<Duration, String>)
    requires
        !too_long(text@),
    ensures
        match r {
            Ok(d) => human_duration(text@) == Ok::<Duration, Seq<char>>(d),
            Err(e) => human_duration(text@) == Err::<Duration, Seq<char>>(e@),
        },
{
    match humantime::parse_duration(text) {
        Ok(d) => Ok(Duration { secs: d.as_secs(), nanos: d.subsec_nanos() }),
        Err(e) => Err(e.to_string()),
    }
}

/// What is said of a length of time that cannot be held.
pub const SPAN_TOO_LONG: &'static str =
    "number is too large or cannot be represented without a lack of precision (values below 1ns are not supported)";

/// The length of time that a text stands for, or what is wrong with it.
pub open spec fn duration_read(text: Seq<char>) -> Result<Duration, Seq<char>> {
    if too_long(text) {
        Err(SPAN_TOO_LONG@)
    } else {
        human_duration(text)
    }
}

/// The length of time that a text stands for, or what is wrong with it.
pub fn parse_duration(input: &str) -> (r: Result<Duration, String>)
    ensures
        match r {
            Ok(d) => duration_read(input@) == Ok::<Duration, Seq<char>>(d),
            Err(e) => duration_read(input@) == Err::<Duration, Seq<char>>(e@),
        },
{
    if is_too_long(input) {
        Err(SPAN_TOO_LONG.to_owned())
    } else {
        read_human_duration(input)
    }
}

/// The length of time that a value stands for; so many seconds where none is given.
pub open spec fn span_of(value: Option<Seq<char>>, default_secs: u64) -> Duration {
    match value {
        Some(s) => match duration_read(s) {
            Ok(d) => d,
            Err(_) => Duration::from_secs(default_secs),
        },
        None => Duration::from_secs(default_secs),
    }
}

/// A length of time that is given can be read.
pub open spec fn is_span(value: Option<Seq<char>>) -> bool {
    value matches Some(s) ==> duration_read(s) is Ok
}

pub(crate) fn read_span(value: Option<String>, default_secs: u64) -> (r: Option<Duration>)
    ensures
        match r {
            Some(d) => is_span(opt_view(value)) && d == span_of(opt_view(value), default_secs),
            None => !is_span(opt_view(value)),
        },
{
    match value {
        Some(s) => match parse_duration(s.as_str()) {
            Ok(d) => Some(d),
            Err(_) => None,
        },
        None => Some(Duration::from_secs(default_secs)),
    }
}

// ---- what holds of all arguments ---------------------------------------------------------

/// An option may be given with its value behind an equals sign or as an argument of its own: both
/// come to the same, unless the value looks like an option itself. A value that cannot be used and
/// stands on its own right in front of a command is left out: the command is looked at first.
pub proof fn both_forms_of_an_option(
    name: Seq<char>,
    value: Seq<char>,
    rest: Seq<Seq<char>>,
    grammar: GrammarView,
    level: LevelView,
)
    requires
        grammar.options.contains(name),
        !grammar.flags.contains(name),
        name.len() > 0,
        forall|i: int| 0 <= i < name.len() ==> name[i] != '=',
        name != "help"@,
        name != "version"@,
        !is_dashed(value),
        grammar.has_commands && rest.len() > 0 && !is_dashed(rest[0]) ==> level.value(name) is None
            && grammar.suits(name, value),
    ensures
        scan(seq!["--"@ + name + "="@ + value] + rest, grammar, level, false) == scan(
            seq!["--"@ + name, value] + rest,
            grammar,
            level,
            false,
        ),
{
    reveal_strlit("--");
    reveal_strlit("=");
    reveal_strlit("--help");
    reveal_strlit("--version");
    reveal_strlit("help");
    reveal_strlit("version");
    let one = "--"@ + name + "="@ + value;
    let two = "--"@ + name;
    let a = seq![one] + rest;
    let b = seq![two, value] + rest;
    assert(a.drop_first() =~= rest);
    assert(b.skip(2) =~= rest);
    assert(b[1] == value);
    assert(one.skip(2) =~= name + "="@ + value);
    crate::text::lemma_char_index_is(one.skip(2), '=', name.len() as int);
    assert(option_name(one) =~= name);
    assert(option_value(one)->0 =~= value);
    assert(two.skip(2) =~= name);
    crate::text::lemma_char_index_is(two.skip(2), '=', name.len() as int);
    assert(option_name(two) =~= name);
    assert(one.subrange(0, 2) =~= "--"@);
    assert(two.subrange(0, 2) =~= "--"@);
    assert("--help"@.skip(2) =~= "help"@);
    assert("--version"@.skip(2) =~= "version"@);
    assert(one != "--help"@) by {
        if one == "--help"@ {
            assert(one[2 + name.len() as int] == '=');
        }
    }
    assert(one != "--version"@) by {
        if one == "--version"@ {
            assert(one[2 + name.len() as int] == '=');
        }
    }
}

/// No option counts twice: arguments that give one that was given already are never accepted. They
/// are refused at once, or once the command behind them was looked at.
pub proof fn options_are_given_once(
    name: Seq<char>,
    value: Seq<char>,
    rest: Seq<Seq<char>>,
    grammar: GrammarView,
    level: LevelView,
)
    requires
        grammar.options.contains(name),
        !grammar.flags.contains(name),
        level.value(name) is Some,
        forall|i: int| 0 <= i < name.len() ==> name[i] != '=',
        name.len() > 0,
        name != "help"@,
        name != "version"@,
    ensures
        match scan(seq!["--"@ + name, value] + rest, grammar, level, false) {
            Scan::Invalid => true,
            Scan::Level(found) => found.faulty && forall|command: Verdict|
                !((#[trigger] verdict_behind(found, command)) is Accepted),
            _ => false,
        },
{
    reveal_strlit("--");
    reveal_strlit("--help");
    reveal_strlit("--version");
    reveal_strlit("help");
    reveal_strlit("version");
    let two = "--"@ + name;
    let b = seq![two, value] + rest;
    assert(b[0] == two);
    if rest.len() > 0 {
        assert(b[2] == rest[0]);
    }
    assert(two.skip(2) =~= name);
    crate::text::lemma_char_index_is(two.skip(2), '=', name.len() as int);
    assert(option_name(two) =~= name);
    assert(two.subrange(0, 2) =~= "--"@);
    assert("--help"@.skip(2) =~= "help"@);
    assert("--version"@.skip(2) =~= "version"@);
}

/// An option that is known is taken with the value behind it, and reading goes on behind both.
pub proof fn options_are_taken_with_their_values(
    name: Seq<char>,
    value: Seq<char>,
    rest: Seq<Seq<char>>,
    grammar: GrammarView,
    level: LevelView,
)
    requires
        grammar.options.contains(name),
        !grammar.flags.contains(name),
        name.len() > 0,
        forall|i: int| 0 <= i < name.len() ==> name[i] != '=',
        name != "help"@,
        name != "version"@,
        !is_dashed(value),
        level.value(name) is None,
        grammar.suits(name, value),
    ensures
        scan(seq!["--"@ + name, value] + rest, grammar, level, false) == scan(
            rest,
            grammar,
            LevelView { values: level.values.push((name, value)), ..level },
            false,
        ),
{
    reveal_strlit("--");
    reveal_strlit("--help");
    reveal_strlit("--version");
    reveal_strlit("help");
    reveal_strlit("version");
    let arg = "--"@ + name;
    let args = seq![arg, value] + rest;
    assert(args.skip(2) =~= rest);
    assert(args[1] == value);
    assert(arg.skip(2) =~= name);
    crate::text::lemma_char_index_is(arg.skip(2), '=', name.len() as int);
    assert(option_name(arg) =~= name);
    assert(arg.subrange(0, 2) =~= "--"@);
    assert("--help"@.skip(2) =~= "help"@);
    assert("--version"@.skip(2) =~= "version"@);
}

/// A flag that is known is taken, once, and has no value.
pub proof fn flags_are_taken(
    name: Seq<char>,
    value: Seq<char>,
    rest: Seq<Seq<char>>,
    grammar: GrammarView,
    level: LevelView,
)
    requires
        grammar.flags.contains(name),
        name.len() > 0,
        forall|i: int| 0 <= i < name.len() ==> name[i] != '=',
        name != "help"@,
        name != "version"@,
    ensures
        !level.flags.contains(name) ==> scan(seq!["--"@ + name] + rest, grammar, level, false) == scan(
            rest,
            grammar,
            LevelView { flags: level.flags.push(name), ..level },
            false,
        ),
        level.flags.contains(name) ==> scan(seq!["--"@ + name] + rest, grammar, level, false)
            is Invalid,
        scan(seq!["--"@ + name + "="@ + value] + rest, grammar, level, false) is Invalid,
{
    reveal_strlit("--");
    reveal_strlit("=");
    reveal_strlit("--help");
    reveal_strlit("--version");
    reveal_strlit("help");
    reveal_strlit("version");
    let arg = "--"@ + name;
    let args = seq![arg] + rest;
    assert(args.drop_first() =~= rest);
    assert(arg.skip(2) =~= name);
    crate::text::lemma_char_index_is(arg.skip(2), '=', name.len() as int);
    assert(option_name(arg) =~= name);
    assert(arg.subrange(0, 2) =~= "--"@);
    assert("--help"@.skip(2) =~= "help"@);
    assert("--version"@.skip(2) =~= "version"@);
    let one = "--"@ + name + "="@ + value;
    assert(one.skip(2) =~= name + "="@ + value);
    crate::text::lemma_char_index_is(one.skip(2), '=', name.len() as int);
    assert(option_name(one) =~= name);
    assert(one.subrange(0, 2) =~= "--"@);
    assert(one[2 + name.len() as int] == '=');
    assert(one != "--help"@);
    assert(one != "--version"@);
}

/// A word is taken as one where there is room for it; where commands are known, it names one, and all
/// behind it is for that command.
pub proof fn words_are_taken(
    word: Seq<char>,
    rest: Seq<Seq<char>>,
    grammar: GrammarView,
    level: LevelView,
)
    requires
        !is_dashed(word),
    ensures
        !grammar.has_commands && level.words.len() < grammar.words ==> scan(
            seq![word] + rest,
            grammar,
            level,
            false,
        ) == scan(rest, grammar, LevelView { words: level.words.push(word), ..level }, false),
        !grammar.has_commands && level.words.len() >= grammar.words ==> scan(
            seq![word] + rest,
            grammar,
            level,
            false,
        ) is Invalid,
        grammar.has_commands ==> scan(seq![word] + rest, grammar, level, false) == Scan::Level(
            LevelView { rest: seq![word] + rest, ..level },
        ),
{
    assert((seq![word] + rest).drop_first() =~= rest);
}

/// What is not known is refused, and so is an option without its value.
pub proof fn unknown_options_are_refused(
    name: Seq<char>,
    rest: Seq<Seq<char>>,
    grammar: GrammarView,
    level: LevelView,
)
    requires
        !grammar.flags.contains(name),
        name.len() > 0,
        forall|i: int| 0 <= i < name.len() ==> name[i] != '=',
        name != "help"@,
        name != "version"@,
    ensures
        !grammar.options.contains(name) ==> scan(seq!["--"@ + name] + rest, grammar, level, false)
            is Invalid,
        scan(seq!["--"@ + name], grammar, level, false) is Invalid,
{
    reveal_strlit("--");
    reveal_strlit("--help");
    reveal_strlit("--version");
    reveal_strlit("help");
    reveal_strlit("version");
    let arg = "--"@ + name;
    assert(arg.skip(2) =~= name);
    crate::text::lemma_char_index_is(arg.skip(2), '=', name.len() as int);
    assert(option_name(arg) =~= name);
    assert(option_value(arg) is None);
    assert(arg.subrange(0, 2) =~= "--"@);
    assert("--help"@.skip(2) =~= "help"@);
    assert("--version"@.skip(2) =~= "version"@);
    assert((seq![arg] + rest)[0] == arg);
    assert(seq![arg][0] == arg);
}

/// Help can be asked for anywhere before the words, and the version where there is one.
pub proof fn help_can_be_asked_for(rest: Seq<Seq<char>>, grammar: GrammarView, level: LevelView)
    ensures
        scan(seq!["--help"@] + rest, grammar, level, false) is Help,
        scan(seq!["-h"@] + rest, grammar, level, false) is Help,
        grammar.has_version ==> scan(seq!["--version"@] + rest, grammar, level, false) is Version,
        grammar.has_version ==> scan(seq!["-V"@] + rest, grammar, level, false) is Version,
        scan(Seq::empty(), grammar, level, false) == Scan::Level(level),
{
    reveal_strlit("--help");
    reveal_strlit("-h");
    reveal_strlit("--version");
    reveal_strlit("-V");
    reveal_strlit("--");
    assert((seq!["--help"@] + rest)[0] == "--help"@);
    assert((seq!["-h"@] + rest)[0] == "-h"@);
    assert((seq!["--version"@] + rest)[0] == "--version"@);
    assert((seq!["-V"@] + rest)[0] == "-V"@);
    assert("--help"@.len() == 6 && "--version"@.len() == 9 && "--"@.len() == 2 && "-V"@.len() == 2
        && "-V"@[1] == 'V' && "--"@[1] == '-' && "-h"@[1] == 'h' && "--version"@[1] == '-');
}

/// A value is found by its name, the first that was given.
pub proof fn values_are_found_by_name(
    values: Seq<(Seq<char>, Seq<char>)>,
    name: Seq<char>,
    value: Seq<char>,
    other: Seq<char>,
)
    ensures
        value_in(Seq::empty(), name) is None,
        value_in(seq![(name, value)] + values, name) == Some(value),
        other != name ==> value_in(seq![(name, value)] + values, other) == value_in(values, other),
{
    assert((seq![(name, value)] + values).drop_first() =~= values);
}

/// What counts as a path, a count and a truth, and what they are.
pub proof fn values_have_their_kinds(s: Seq<char>, n: nat)
    ensures
        is_path(None),
        is_count(None),
        is_truth(None),
        is_span(None),
        is_path(Some(s)) <==> s.len() > 0,
        n <= usize::MAX ==> count_of(Some(crate::text::decimal(n))) == Some(n),
        n > usize::MAX ==> !is_count(Some(crate::text::decimal(n))),
        truth_of(Some("true"@)) == Some(true),
        truth_of(Some("false"@)) == Some(false),
        is_truth(Some(s)) <==> s == "true"@ || s == "false"@,
        or_default(Some(s), Seq::empty()) == s,
        or_default(None, s) == s,
{
    reveal_strlit("true");
    reveal_strlit("false");
    assert("true"@.len() == 4 && "false"@.len() == 5);
    crate::text::numbers_are_read_from_digits(s, n, usize::MAX + 1);
}

/// A span that cannot be read is none; where none is given, the default counts.
pub proof fn spans_have_their_default(s: Seq<char>, secs: u64)
    ensures
        span_of(None, secs) == (Duration { secs, nanos: 0 }),
        duration_read(s) matches Ok(d) ==> is_span(Some(s)) && span_of(Some(s), secs) == d,
        duration_read(s) is Err ==> !is_span(Some(s)),
        too_long(s) ==> duration_read(s) is Err,
        !too_long(s) ==> duration_read(s) == human_duration(s),
{
}

/// A value suits its option by the kind of value that the option takes.
pub proof fn values_suit_their_options(grammar: GrammarView, name: Seq<char>, value: Seq<char>)
    ensures
        grammar.suits(name, value) <==> {
            &&& grammar.paths.contains(name) ==> value.len() > 0
            &&& grammar.counts.contains(name) ==> count_of(Some(value)) is Some
            &&& grammar.truths.contains(name) ==> truth_of(Some(value)) is Some
            &&& grammar.spans.contains(name) ==> duration_read(value) is Ok
        },
{
}

/// A command of a group is named by the first word, and all behind the word is the command's.
pub proof fn groups_hand_on_to_their_commands<C: Commands>(
    it: C,
    word: Seq<char>,
    rest: Seq<Seq<char>>,
)
    requires
        !is_dashed(word),
    ensures
        group_verdict::<C>(seq![word] + rest) == C::verdict(word, rest),
        group_says(it, seq![word] + rest) <==> it.says(word, rest),
        group_verdict::<C>(Seq::empty()) is Invalid,
{
    words_are_taken(word, rest, group_grammar(), no_level());
    assert((seq![word] + rest).drop_first() =~= rest);
    assert((seq![word] + rest)[0] == word);
}

/// A value in front of a command that cannot be used makes the command invalid, unless there is
/// something else to say of the command.
pub proof fn faults_are_told_last(level: LevelView, command: Verdict, e: UsageError)
    ensures
        !level.faulty ==> verdict_behind(level, command) == command,
        level.faulty && command is Accepted ==> verdict_behind(level, command) is Invalid,
        level.faulty && !(command is Accepted) ==> verdict_behind(level, command) == command,
        e is Help <==> e.verdict() is Help,
        e is Version <==> e.verdict() is Version,
        e is Invalid <==> e.verdict() is Invalid,
{
}

} // verus!

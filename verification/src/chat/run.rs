//! How the chat runs: when the screen is drawn, what is asked of the daemon, and what is printed
//! for programs.
//!
//! Times and lengths of time are in nanoseconds, counted from any fixed moment.

use vstd::prelude::*;
use crate::chat::app::{ActionView, AppAction, AppView, ChatApp};
use crate::chat::preview::short_thread_id;
use crate::cli::error::CliError;
use crate::json;
use crate::json::{array, object, parse, put_entry, value_read, Json, JsonTree};
use crate::text::{cat, cat3, clipped, lemma_blank, opt_view, trim, trimmed};

verus! {

/// How long to wait for a key while nothing goes on.
pub const IDLE_POLL_INTERVAL: u64 = 250_000_000;

/// How long to wait for a key while a request is under way.
pub const PENDING_POLL_INTERVAL: u64 = 50_000_000;

/// The time between two drawings of an animation.
pub const ANIMATION_FRAME_INTERVAL: u64 = 33_000_000;

/// How long to wait for a key: no longer than until the next drawing of an animation.
pub fn poll_timeout_with_animation(
    fallback: u64,
    animation_active: bool,
    next_animation_tick: Option<u64>,
    now: u64,
) -> (r: u64)
    ensures
        r == (match next_animation_tick {
            Some(tick) if animation_active => {
                let left = if tick > now {
                    tick - now
                } else {
                    0
                };
                if left < fallback {
                    left
                } else {
                    fallback as int
                }
            },
            _ => fallback as int,
        }),
{
    if !animation_active {
        return fallback;
    }
    match next_animation_tick {
        Some(tick) => {
            let left: u64 = if tick > now {
                tick - now
            } else {
                0
            };
            if left < fallback {
                left
            } else {
                fallback
            }
        },
        None => fallback,
    }
}

/// Whether an animation is to be drawn again.
pub fn animation_tick_due(
    animation_active: bool,
    next_animation_tick: Option<u64>,
    now: u64,
) -> (r: bool)
    ensures
        r == (animation_active && (next_animation_tick matches Some(tick) && tick <= now)),
{
    match next_animation_tick {
        Some(tick) => animation_active && tick <= now,
        None => false,
    }
}

/// When the screen is drawn.
#[derive(Debug, Clone, Copy, PartialEq, Eq)]
pub struct Frames {
    pub needs_redraw: bool,
    pub animation_active: bool,
    pub next_animation_tick: Option<u64>,
}

impl Frames {
    /// An animation has a time to be drawn at.
    pub open spec fn wf(self) -> bool {
        self.animation_active == (self.next_animation_tick is Some)
    }

    /// At the start the screen is to be drawn, and nothing moves.
    pub fn new() -> (r: Frames)
        ensures
            r.wf(),
            r == (Frames {
                needs_redraw: true,
                animation_active: false,
                next_animation_tick: None,
            }),
    {
        Frames { needs_redraw: true, animation_active: false, next_animation_tick: None }
    }

    /// Notes whether something on the screen moves. When that changes, the screen is drawn.
    pub fn follow(&mut self, should_animate: bool, now: u64)
        requires
            old(self).wf(),
            now <= u64::MAX - ANIMATION_FRAME_INTERVAL,
        ensures
            final(self).wf(),
            *final(self) == (if should_animate == old(self).animation_active {
                *old(self)
            } else {
                Frames {
                    needs_redraw: true,
                    animation_active: should_animate,
                    next_animation_tick: if should_animate {
                        Some((now + ANIMATION_FRAME_INTERVAL) as u64)
                    } else {
                        None
                    },
                }
            }),
    {
        if should_animate != self.animation_active {
            self.animation_active = should_animate;
            self.next_animation_tick = if should_animate {
                Some(now + ANIMATION_FRAME_INTERVAL)
            } else {
                None
            };
            self.needs_redraw = true;
        }
    }

    /// The screen has been drawn.
    pub fn drawn(&mut self, now: u64)
        requires
            old(self).wf(),
            now <= u64::MAX - ANIMATION_FRAME_INTERVAL,
        ensures
            final(self).wf(),
            *final(self) == (Frames {
                needs_redraw: false,
                next_animation_tick: if old(self).animation_active {
                    Some((now + ANIMATION_FRAME_INTERVAL) as u64)
                } else {
                    old(self).next_animation_tick
                },
                ..*old(self)
            }),
    {
        self.needs_redraw = false;
        if self.animation_active {
            self.next_animation_tick = Some(now + ANIMATION_FRAME_INTERVAL);
        }
    }

    /// How long to wait for a key.
    pub fn wait(&self, pending: bool, now: u64) -> (r: u64)
        requires
            self.wf(),
        ensures
            r <= (if pending {
                PENDING_POLL_INTERVAL
            } else {
                IDLE_POLL_INTERVAL
            }),
            r == (match self.next_animation_tick {
                Some(tick) if tick <= now => 0,
                Some(tick) if tick - now < (if pending {
                    PENDING_POLL_INTERVAL
                } else {
                    IDLE_POLL_INTERVAL
                }) => tick - now,
                _ => if pending {
                    PENDING_POLL_INTERVAL as int
                } else {
                    IDLE_POLL_INTERVAL as int
                },
            }),
    {
        let fallback: u64 = if pending {
            PENDING_POLL_INTERVAL
        } else {
            IDLE_POLL_INTERVAL
        };
        poll_timeout_with_animation(fallback, self.animation_active, self.next_animation_tick, now)
    }

    /// No key came while waiting.
    pub fn idle(&mut self, now: u64)
        requires
            old(self).wf(),
        ensures
            final(self).wf(),
            *final(self) == (Frames {
                needs_redraw: old(self).needs_redraw || (old(self).next_animation_tick matches Some(
                    tick,
                ) && tick <= now),
                ..*old(self)
            }),
    {
        if animation_tick_due(self.animation_active, self.next_animation_tick, now) {
            self.needs_redraw = true;
        }
    }

    /// Something has changed.
    pub fn changed(&mut self)
        requires
            old(self).wf(),
        ensures
            final(self).wf(),
            *final(self) == (Frames { needs_redraw: true, ..*old(self) }),
    {
        self.needs_redraw = true;
    }
}

/// Something that is asked of the daemon while the chat goes on.
#[derive(Debug)]
pub enum Request {
    SystemTurn { message: String },
    SubagentTurn { thread_id: String, message: String },
    /// The thread is opened, and taken up again first if need be.
    OpenThread { thread_id: String, resurrect: bool },
}

/// What comes after an event.
#[derive(Debug)]
pub enum Step {
    Stay,
    Quit,
    Ask(Request),
}

/// The action that a request comes from.
pub open spec fn action_of(request: Request) -> ActionView {
    match request {
        Request::SystemTurn { message } => ActionView::SubmitSystemTurn(message@),
        Request::SubagentTurn { thread_id, message } => ActionView::SubmitSubagentTurn {
            thread_id: thread_id@,
            message: message@,
        },
        Request::OpenThread { thread_id, resurrect } => ActionView::OpenThread {
            thread_id: thread_id@,
            resurrect,
        },
    }
}

/// The status of the demonstration after an action.
pub open spec fn demo_status(action: ActionView, status: Option<Seq<char>>) -> Option<Seq<char>> {
    match action {
        ActionView::Idle => status,
        ActionView::Quit => status,
        ActionView::SubmitSystemTurn(_) => Some("Demo mode: sends disabled"@),
        ActionView::SubmitSubagentTurn { .. } => Some("Demo mode: sends disabled"@),
        ActionView::OpenThread { thread_id, .. } => Some(
            "Loaded thread "@ + clipped(thread_id, 8) + " (demo)"@,
        ),
    }
}

impl ChatApp {
    /// What comes after an action. While a request is under way no other is made.
    pub fn next_step(&mut self, action: AppAction, pending: bool) -> (r: Step)
        requires
            old(self).wf(),
        ensures
            final(self).wf(),
            r is Quit == action is Quit,
            r is Ask == !(action is Idle || action is Quit || pending),
            (r matches Step::Ask(request) ==> action_of(request) == action@),
            final(self)@ == (if action is Idle || action is Quit || !pending {
                old(self)@
            } else {
                old(self)@.say("Request already in progress"@)
            }),
    {
        match action {
            AppAction::Idle => Step::Stay,
            AppAction::Quit => Step::Quit,
            AppAction::SubmitSystemTurn(message) => {
                if pending {
                    self.status = Some("Request already in progress".to_owned());
                    return Step::Stay;
                }
                Step::Ask(Request::SystemTurn { message })
            },
            AppAction::SubmitSubagentTurn { thread_id, message } => {
                if pending {
                    self.status = Some("Request already in progress".to_owned());
                    return Step::Stay;
                }
                Step::Ask(Request::SubagentTurn { thread_id, message })
            },
            AppAction::OpenThread { thread_id, resurrect } => {
                if pending {
                    self.status = Some("Request already in progress".to_owned());
                    return Step::Stay;
                }
                Step::Ask(Request::OpenThread { thread_id, resurrect })
            },
        }
    }

    /// Takes an action of the demonstration in, which asks nothing of anyone. Tells whether the
    /// demonstration goes on.
    pub fn demo_step(&mut self, action: AppAction) -> (r: bool)
        requires
            old(self).wf(),
        ensures
            final(self).wf(),
            r == !(action is Quit),
            final(self)@ == (AppView {
                status: demo_status(action@, old(self)@.status),
                ..old(self)@
            }),
    {
        match action {
            AppAction::Idle => true,
            AppAction::Quit => false,
            AppAction::SubmitSystemTurn(_) => {
                self.status = Some("Demo mode: sends disabled".to_owned());
                true
            },
            AppAction::SubmitSubagentTurn { .. } => {
                self.status = Some("Demo mode: sends disabled".to_owned());
                true
            },
            AppAction::OpenThread { thread_id, .. } => {
                let short = short_thread_id(thread_id.as_str());
                self.status = Some(cat3("Loaded thread ", short.as_str(), " (demo)"));
                true
            },
        }
    }
}

// ---- what is read from and printed for programs ------------------------------------------

/// The message of a line, for what the line reads as. What is no JSON is a message as it is.
pub open spec fn message_in(line: Seq<char>, read: Result<JsonTree, Seq<char>>) -> Option<
    Seq<char>,
> {
    match read {
        Ok(value) => match value.text() {
            Some(message) => Some(message),
            None => value.field_text("message"@),
        },
        Err(_) => Some(line),
    }
}

/// The message of a line, for what the line reads as.
pub fn message_of(line: String, read: Result<Json, String>) -> (r: Option<String>)
    ensures
        opt_view(r) == message_in(
            line@,
            match read {
                Ok(value) => Ok(value@),
                Err(e) => Err(e@),
            },
        ),
{
    match read {
        Ok(value) => match value.as_str() {
            Some(message) => Some(message.to_owned()),
            None => value.get_str("message"),
        },
        Err(_) => Some(line),
    }
}

/// The message of a line: a JSON text, the `message` of a JSON object, or the line as it is where
/// it is no JSON. A blank line has none.
pub fn parse_ndjson_message_line(line: &str) -> (r: Option<String>)
    ensures
        opt_view(r) == (if crate::text::blank(line@) {
            None
        } else {
            message_in(trimmed(line@), value_read(trimmed(line@)))
        }),
{
    let trimmed_line = trim(line);
    proof {
        lemma_blank(line@);
    }
    if trimmed_line.as_str().is_empty() {
        return None;
    }
    let read = parse(trimmed_line.as_str());
    message_of(trimmed_line, read)
}

/// What is printed when the chat starts.
pub fn snapshot_event(system_thread: Json) -> (r: Json)
    ensures
        r@ == JsonTree::Object(
            seq![
                ("event"@, JsonTree::Text("snapshot"@)),
                ("runs"@, JsonTree::Array(Seq::empty())),
                ("system_thread"@, system_thread@),
            ],
        ),
{
    let mut entries: Vec<(String, Json)> = Vec::new();
    put_entry(&mut entries, "event", json::text("snapshot"));
    put_entry(&mut entries, "runs", no_runs());
    put_entry(&mut entries, "system_thread", system_thread);
    let r = object(entries);
    assert(r@->Object_0 =~= seq![
        ("event"@, JsonTree::Text("snapshot"@)),
        ("runs"@, JsonTree::Array(Seq::empty())),
        ("system_thread"@, system_thread@),
    ]);
    r
}

/// What is printed after a turn.
pub fn turn_complete_event(input: &str, turn_result: Json, system_thread: Json) -> (r: Json)
    ensures
        r@ == JsonTree::Object(
            seq![
                ("event"@, JsonTree::Text("turn_complete"@)),
                ("input"@, JsonTree::Text(input@)),
                ("runs"@, JsonTree::Array(Seq::empty())),
                ("system_thread"@, system_thread@),
                ("turn_result"@, turn_result@),
            ],
        ),
{
    let mut entries: Vec<(String, Json)> = Vec::new();
    put_entry(&mut entries, "event", json::text("turn_complete"));
    put_entry(&mut entries, "input", json::text(input));
    put_entry(&mut entries, "runs", no_runs());
    put_entry(&mut entries, "system_thread", system_thread);
    put_entry(&mut entries, "turn_result", turn_result);
    let r = object(entries);
    assert(r@->Object_0 =~= seq![
        ("event"@, JsonTree::Text("turn_complete"@)),
        ("input"@, JsonTree::Text(input@)),
        ("runs"@, JsonTree::Array(Seq::empty())),
        ("system_thread"@, system_thread@),
        ("turn_result"@, turn_result@),
    ]);
    r
}

/// What is printed after a turn that failed.
pub fn turn_error_event(input: &str, error: &CliError) -> (r: Json)
    ensures
        r@ == JsonTree::Object(
            seq![
                (
                    "error"@,
                    JsonTree::Object(seq![("message"@, JsonTree::Text(error.said()))]),
                ),
                ("event"@, JsonTree::Text("turn_error"@)),
                ("input"@, JsonTree::Text(input@)),
            ],
        ),
{
    let mut inner: Vec<(String, Json)> = Vec::new();
    put_entry(&mut inner, "message", Json::Text(error.to_text()));
    let told = object(inner);
    assert(told@->Object_0 =~= seq![("message"@, JsonTree::Text(error.said()))]);
    let mut entries: Vec<(String, Json)> = Vec::new();
    put_entry(&mut entries, "error", told);
    put_entry(&mut entries, "event", json::text("turn_error"));
    put_entry(&mut entries, "input", json::text(input));
    let r = object(entries);
    assert(r@->Object_0 =~= seq![
        ("error"@, told@),
        ("event"@, JsonTree::Text("turn_error"@)),
        ("input"@, JsonTree::Text(input@)),
    ]);
    r
}

fn no_runs() -> (r: Json)
    ensures
        r@ == JsonTree::Array(Seq::empty()),
{
    let r = array(Vec::new());
    assert(r@->Array_0 =~= Seq::<JsonTree>::empty());
    r
}

/// A fault of the terminal.
pub fn map_terminal_err(err: &str) -> (r: CliError)
    ensures
        r is Lifecycle,
        r.said() == "chat terminal error: "@ + err@,
{
    CliError::Lifecycle(cat("chat terminal error: ", err))
}

/// A fault while reading or printing.
pub fn map_io_err(err: &str) -> (r: CliError)
    ensures
        r is Lifecycle,
        r.said() == "chat I/O error: "@ + err@,
{
    CliError::Lifecycle(cat("chat I/O error: ", err))
}

/// The chat on the screen needs a terminal.
pub fn check_terminal(is_terminal: bool) -> (r: Result<(), CliError>)
    ensures
        r is Ok == is_terminal,
        r matches Err(e) ==> e is Usage && e.said()
            == "orchestrator chat interactive mode requires a TTY; use --json for NDJSON mode"@,
{
    if is_terminal {
        return Ok(());
    }
    Err(
        CliError::Usage(
            "orchestrator chat interactive mode requires a TTY; use --json for NDJSON mode".to_owned(),
        ),
    )
}

/// The demonstration needs a terminal.
pub fn check_demo_terminal(is_terminal: bool) -> (r: Result<(), CliError>)
    ensures
        r is Ok == is_terminal,
        r matches Err(e) ==> e is Usage && e.said() == "demo mode requires a TTY"@,
{
    if is_terminal {
        return Ok(());
    }
    Err(CliError::Usage("demo mode requires a TTY".to_owned()))
}

/// A request asks for what the action said: of the same thread, with the same words.
pub proof fn requests_ask_for_what_was_said(thread_id: String, message: String, resurrect: bool)
    ensures
        action_of(Request::SystemTurn { message }) == ActionView::SubmitSystemTurn(message@),
        action_of(Request::SubagentTurn { thread_id, message }) == (ActionView::SubmitSubagentTurn {
            thread_id: thread_id@,
            message: message@,
        }),
        action_of(Request::OpenThread { thread_id, resurrect }) == (ActionView::OpenThread {
            thread_id: thread_id@,
            resurrect,
        }),
{
}

/// Nothing is sent in a demonstration, and that is said.
pub proof fn demonstrations_send_nothing(
    text: Seq<char>,
    thread_id: Seq<char>,
    resurrect: bool,
    status: Option<Seq<char>>,
)
    ensures
        demo_status(ActionView::Idle, status) == status,
        demo_status(ActionView::Quit, status) == status,
        demo_status(ActionView::SubmitSystemTurn(text), status) == Some("Demo mode: sends disabled"@),
        demo_status(ActionView::SubmitSubagentTurn { thread_id, message: text }, status) == Some(
            "Demo mode: sends disabled"@,
        ),
        demo_status(ActionView::OpenThread { thread_id, resurrect }, status) == Some(
            "Loaded thread "@ + clipped(thread_id, 8) + " (demo)"@,
        ),
{
}

/// A line that is no JSON is a message itself; one that is a text says that text, and an object what
/// stands in its field.
pub proof fn lines_are_read_as_messages(line: Seq<char>, value: JsonTree, e: Seq<char>)
    ensures
        message_in(line, Err(e)) == Some(line),
        value matches JsonTree::Text(s) ==> message_in(line, Ok(value)) == Some(s),
        !(value is Text) ==> message_in(line, Ok(value)) == value.field_text("message"@),
{
}

/// How long the chat waits for keys: a quarter of a second, a twentieth while a reply is awaited, and
/// 33 milliseconds between two frames that move.
pub proof fn the_chat_does_not_wait_long()
    ensures
        IDLE_POLL_INTERVAL == 250 * 1_000_000,
        PENDING_POLL_INTERVAL == 50 * 1_000_000,
        ANIMATION_FRAME_INTERVAL == 33 * 1_000_000,
{
}

} // verus!

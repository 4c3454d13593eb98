//! The plain chat: the orchestrator's thread, and a thread for each run that it delegated, which
//! can only be read.

use vstd::prelude::*;
use crate::chat::app::{last_of, pasted_into, ClipboardProvider, FocusPane};
use crate::chat::composer::{ComposerState, ComposerView, DEFAULT_MAX_VISIBLE_LINES};
use crate::chat::keys::{Event, KeyCode, KeyEvent, KeyEventKind};
use crate::chat::marks::{number_for, Marks};
use crate::chat::run_cards::{
    call_card, card_of, run_cards, run_flipped, run_item_views, run_link, run_snapshot,
    run_thread_items, short_run_id, timeline_item_from_thread_message, told,
    tool_item_from_invocation, RunItem, RunItemView,
};
use crate::chat::thread::SYSTEM_THREAD_ID;
use crate::chat::timeline::MessageRoleTag;
use crate::cli::error::CliError;
use crate::json;
use crate::json::{Json, JsonTree};
use crate::rpc::{DelegatedRun, OrchestratorThreadMessage, OrchestratorToolInvocation};
use crate::text::{cat, cat3, clipped, opt_same, opt_view, same};

verus! {

/// A thread: the orchestrator's, or that of a delegated run.
#[derive(Debug)]
pub struct RunThread {
    pub id: String,
    pub title: String,
    pub run_id: Option<String>,
    pub state: Option<String>,
    pub read_only: bool,
    pub items: Vec<RunItem>,
}

/// What a thread holds.
pub struct RunThreadModel {
    pub id: Seq<char>,
    pub title: Seq<char>,
    pub run_id: Option<Seq<char>>,
    pub state: Option<Seq<char>>,
    pub read_only: bool,
    pub items: Seq<RunItemView>,
}

impl View for RunThread {
    type V = RunThreadModel;

    open spec fn view(&self) -> RunThreadModel {
        RunThreadModel {
            id: self.id@,
            title: self.title@,
            run_id: opt_view(self.run_id),
            state: opt_view(self.state),
            read_only: self.read_only,
            items: run_item_views(self.items@),
        }
    }
}

/// The threads of a list.
pub open spec fn run_thread_views(threads: Seq<RunThread>) -> Seq<RunThreadModel> {
    Seq::new(threads.len(), |i: int| threads[i]@)
}

/// The orchestrator's thread, with nothing in it.
pub open spec fn empty_system_thread() -> RunThreadModel {
    RunThreadModel {
        id: SYSTEM_THREAD_ID@,
        title: "System0"@,
        run_id: None,
        state: None,
        read_only: false,
        items: Seq::empty(),
    }
}

/// The title of a run's thread.
pub open spec fn run_title(run: DelegatedRun) -> Seq<char> {
    run.agent_id@ + " ("@ + clipped(run.run_id@, 8) + ")"@
}

fn title_of(run: &DelegatedRun) -> (r: String)
    ensures
        r@ == run_title(*run),
{
    let short = short_run_id(run.run_id.as_str());
    let mut title = cat3(run.agent_id.as_str(), " (", short.as_str());
    title.append(")");
    title
}

/// The thread of a run.
pub open spec fn run_thread(run: DelegatedRun) -> RunThreadModel {
    RunThreadModel {
        id: run.run_id@,
        title: run_title(run),
        run_id: Some(run.run_id@),
        state: Some(run.state@),
        read_only: true,
        items: run_cards(run),
    }
}

impl RunThread {
    /// The orchestrator's thread, with nothing in it.
    pub fn system() -> (r: RunThread)
        ensures
            r@ == empty_system_thread(),
    {
        let r = RunThread {
            id: SYSTEM_THREAD_ID.to_owned(),
            title: "System0".to_owned(),
            run_id: None,
            state: None,
            read_only: false,
            items: Vec::new(),
        };
        assert(r@.items =~= Seq::empty());
        r
    }

    /// The thread of a run.
    pub fn delegated_run(run: &DelegatedRun) -> (r: RunThread)
        ensures
            r@ == run_thread(*run),
    {
        RunThread {
            id: run.run_id.clone(),
            title: title_of(run),
            run_id: Some(run.run_id.clone()),
            state: Some(run.state.clone()),
            read_only: true,
            items: run_thread_items(run),
        }
    }
}

/// What is to be done once an event has been dealt with.
#[derive(Debug, Clone, PartialEq, Eq)]
pub enum RunAction {
    /// Nothing.
    Idle,
    Quit,
    SendTurn(String),
    LoadRun(String),
}

pub enum RunActionView {
    Idle,
    Quit,
    SendTurn(Seq<char>),
    LoadRun(Seq<char>),
}

impl View for RunAction {
    type V = RunActionView;

    open spec fn view(&self) -> RunActionView {
        match *self {
            RunAction::Idle => RunActionView::Idle,
            RunAction::Quit => RunActionView::Quit,
            RunAction::SendTurn(s) => RunActionView::SendTurn(s@),
            RunAction::LoadRun(s) => RunActionView::LoadRun(s@),
        }
    }
}

/// The state of the chat.
#[derive(Debug)]
pub struct RunsApp {
    pub threads: Vec<RunThread>,
    pub delegated_runs: Vec<DelegatedRun>,
    pub sidebar_selected: usize,
    pub active_thread: usize,
    pub focus: FocusPane,
    pub selected_item_by_thread: Marks,
    pub composer: ComposerState,
    pub status: Option<String>,
    pub last_input_cursor_rel: Option<(u16, u16)>,
}

/// The state of the chat.
pub struct RunsView {
    pub threads: Seq<RunThreadModel>,
    pub runs: Seq<DelegatedRun>,
    pub sidebar_selected: usize,
    pub active_thread: usize,
    pub focus: FocusPane,
    pub selected: Map<Seq<char>, usize>,
    pub composer: ComposerView,
    pub status: Option<Seq<char>>,
    pub cursor_rel: Option<(u16, u16)>,
}

impl View for RunsApp {
    type V = RunsView;

    open spec fn view(&self) -> RunsView {
        RunsView {
            threads: run_thread_views(self.threads@),
            runs: self.delegated_runs@,
            sidebar_selected: self.sidebar_selected,
            active_thread: self.active_thread,
            focus: self.focus,
            selected: self.selected_item_by_thread@,
            composer: self.composer@,
            status: opt_view(self.status),
            cursor_rel: self.last_input_cursor_rel,
        }
    }
}

/// The position of the first thread with the given identifier, or the number of threads.
pub open spec fn run_index(threads: Seq<RunThreadModel>, id: Seq<char>) -> int
    decreases threads.len(),
{
    if threads.len() == 0 || threads[0].id == id {
        0
    } else {
        1 + run_index(threads.drop_first(), id)
    }
}

/// The position of the first thread that belongs to a run, or the number of threads.
pub open spec fn run_place(threads: Seq<RunThreadModel>, run: Seq<char>) -> int
    decreases threads.len(),
{
    if threads.len() == 0 || threads[0].run_id == Some(run) || threads[0].id == run {
        0
    } else {
        1 + run_place(threads.drop_first(), run)
    }
}

proof fn lemma_run_index(threads: Seq<RunThreadModel>, id: Seq<char>)
    ensures
        0 <= run_index(threads, id) <= threads.len(),
        run_index(threads, id) < threads.len() ==> threads[run_index(threads, id)].id == id,
        forall|j: int| 0 <= j < run_index(threads, id) ==> (#[trigger] threads[j]).id != id,
    decreases threads.len(),
{
    if threads.len() > 0 && threads[0].id != id {
        lemma_run_index(threads.drop_first(), id);
        assert forall|j: int| 0 <= j < run_index(threads, id) implies (#[trigger] threads[j]).id
            != id by {
            if j > 0 {
                assert(threads.drop_first()[j - 1] == threads[j]);
            }
        }
    }
}

fn find_run_thread(threads: &Vec<RunThread>, id: &str) -> (r: usize)
    ensures
        r == run_index(run_thread_views(threads@), id@),
        r <= threads@.len(),
{
    let ghost all = run_thread_views(threads@);
    let mut i: usize = 0;
    assert(all.skip(0) =~= all);
    while i < threads.len()
        invariant
            i <= threads@.len(),
            all == run_thread_views(threads@),
            run_index(all, id@) == i + run_index(all.skip(i as int), id@),
        decreases threads@.len() - i,
    {
        proof {
            assert(all.skip(i as int)[0] == threads@[i as int]@);
            assert(all.skip(i as int).drop_first() =~= all.skip(i + 1));
        }
        if same(threads[i].id.as_str(), id) {
            return i;
        }
        i = i + 1;
    }
    i
}

// ---- the list of runs --------------------------------------------------------------------

/// The last thread in a list with the given identifier.
pub open spec fn last_run_with(pool: Seq<RunThreadModel>, id: Seq<char>) -> Option<RunThreadModel>
    decreases pool.len(),
{
    if pool.len() == 0 {
        None
    } else if pool.last().id == id {
        Some(pool.last())
    } else {
        last_run_with(pool.drop_last(), id)
    }
}

/// The threads in a list with other identifiers.
pub open spec fn runs_without(pool: Seq<RunThreadModel>, id: Seq<char>) -> Seq<RunThreadModel>
    decreases pool.len(),
{
    if pool.len() == 0 {
        pool
    } else if pool.last().id == id {
        runs_without(pool.drop_last(), id)
    } else {
        runs_without(pool.drop_last(), id).push(pool.last())
    }
}

/// The thread of a run: the one that is there, or a new one, brought up to date.
pub open spec fn kept_thread(pool: Seq<RunThreadModel>, run: DelegatedRun) -> RunThreadModel {
    let t = match last_run_with(pool, run.run_id@) {
        Some(t) => t,
        None => run_thread(run),
    };
    RunThreadModel {
        id: t.id,
        title: run_title(run),
        run_id: Some(run.run_id@),
        state: Some(run.state@),
        read_only: true,
        items: if t.items.len() == 0 {
            run_cards(run)
        } else {
            t.items
        },
    }
}

/// The threads of some runs, and the threads that belong to none of them.
pub open spec fn keep_all(pool: Seq<RunThreadModel>, runs: Seq<DelegatedRun>) -> (
    Seq<RunThreadModel>,
    Seq<RunThreadModel>,
)
    decreases runs.len(),
{
    if runs.len() == 0 {
        (seq![], pool)
    } else {
        let (done, left) = keep_all(pool, runs.drop_last());
        let run = runs.last();
        (done.push(kept_thread(left, run)), runs_without(left, run.run_id@))
    }
}

/// The runs of a list from its end.
pub open spec fn backwards(runs: Seq<DelegatedRun>) -> Seq<DelegatedRun> {
    Seq::new(runs.len(), |i: int| runs[runs.len() - 1 - i])
}

/// The state once a list of runs came in: the orchestrator's thread, then the last run first. The
/// thread on screen stays, if it is still there.
pub open spec fn runs_synced(st: RunsView, runs: Seq<DelegatedRun>) -> RunsView {
    let system = match last_run_with(st.threads, SYSTEM_THREAD_ID@) {
        Some(t) => t,
        None => empty_system_thread(),
    };
    let threads = seq![system] + keep_all(
        runs_without(st.threads, SYSTEM_THREAD_ID@),
        backwards(runs),
    ).0;
    let on_screen = run_index(threads, st.current().id);
    RunsView {
        threads,
        runs,
        active_thread: (if on_screen < threads.len() {
            on_screen
        } else {
            0
        }) as usize,
        sidebar_selected: if st.sidebar_selected < threads.len() {
            st.sidebar_selected
        } else {
            (threads.len() - 1) as usize
        },
        ..st
    }
}

fn take_run_thread(pool: &mut Vec<RunThread>, id: &str) -> (r: Option<RunThread>)
    ensures
        run_thread_views(final(pool)@) == runs_without(run_thread_views(old(pool)@), id@),
        match r {
            Some(t) => last_run_with(run_thread_views(old(pool)@), id@) == Some(t@),
            None => last_run_with(run_thread_views(old(pool)@), id@) is None,
        },
{
    let ghost all = run_thread_views(pool@);
    let ghost mut kept: Seq<RunThreadModel> = Seq::empty();
    let mut found: Option<RunThread> = None;
    let mut i: usize = pool.len();
    proof {
        assert(all.take(i as int) =~= all);
        assert(all.take(i as int) + kept =~= all);
        assert(runs_without(all, id@) + kept =~= runs_without(all, id@));
    }
    while i > 0
        invariant
            i <= pool@.len(),
            i <= all.len(),
            run_thread_views(pool@) == all.take(i as int) + kept,
            runs_without(all.take(i as int), id@) + kept == runs_without(all, id@),
            match found {
                Some(t) => last_run_with(all, id@) == Some(t@),
                None => last_run_with(all, id@) == last_run_with(all.take(i as int), id@),
            },
        decreases i,
    {
        i = i - 1;
        let ghost before = run_thread_views(pool@);
        proof {
            assert(before[i as int] == pool@[i as int]@);
            assert(all.take(i + 1).drop_last() =~= all.take(i as int));
            assert(all.take(i + 1).last() == all[i as int]);
            assert(before[i as int] == all[i as int]);
        }
        if same(pool[i].id.as_str(), id) {
            let t = pool.remove(i);
            proof {
                assert(run_thread_views(pool@) =~= before.remove(i as int));
                assert(run_thread_views(pool@) =~= all.take(i as int) + kept);
            }
            if found.is_none() {
                found = Some(t);
            }
        } else {
            proof {
                let ghost more = seq![all[i as int]] + kept;
                assert(all.take(i + 1) + kept =~= all.take(i as int) + more);
                assert(runs_without(all.take(i as int), id@).push(all[i as int]) + kept
                    =~= runs_without(all.take(i as int), id@) + more);
                kept = more;
            }
        }
    }
    proof {
        assert(all.take(0) + kept =~= kept);
        assert(runs_without(all.take(0), id@) + kept =~= kept);
    }
    found
}

fn keep_thread(pool: &mut Vec<RunThread>, run: &DelegatedRun) -> (r: RunThread)
    ensures
        run_thread_views(final(pool)@) == runs_without(run_thread_views(old(pool)@), run.run_id@),
        r@ == kept_thread(run_thread_views(old(pool)@), *run),
{
    let mut t = match take_run_thread(pool, run.run_id.as_str()) {
        Some(t) => t,
        None => RunThread::delegated_run(run),
    };
    assert(t@.items.len() == t.items@.len());
    t.title = title_of(run);
    t.run_id = Some(run.run_id.clone());
    t.state = Some(run.state.clone());
    t.read_only = true;
    if t.items.len() == 0 {
        t.items = run_thread_items(run);
    }
    t
}

// ---- what keys do ------------------------------------------------------------------------

impl RunsView {
    /// The position of the thread on screen.
    pub open spec fn current_index(self) -> int {
        if self.active_thread < self.threads.len() {
            self.active_thread as int
        } else {
            self.threads.len() - 1
        }
    }

    /// The thread on screen.
    pub open spec fn current(self) -> RunThreadModel {
        self.threads[self.current_index()]
    }

    /// The card that is selected in the thread on screen.
    pub open spec fn selected_item(self) -> int {
        number_for(self.selected, self.current().id)
    }

    /// Text can be typed.
    pub open spec fn editable(self) -> bool {
        self.focus is Input && !self.current().read_only
    }

    pub open spec fn say(self, status: Seq<char>) -> RunsView {
        RunsView { status: Some(status), ..self }
    }

    pub open spec fn select(self, item: usize) -> RunsView {
        RunsView { selected: self.selected.insert(self.current().id, item), ..self }
    }

    pub open spec fn type_into(self, composer: ComposerView) -> RunsView {
        RunsView { composer, ..self }
    }

    /// The state with another thread of the same identifier in place of the first.
    pub open spec fn with_thread(self, i: int, t: RunThreadModel) -> RunsView {
        RunsView { threads: self.threads.update(i, t), ..self }
    }

    /// The state with the card before the selected one selected, or the one after it.
    pub open spec fn stepped(self, down: bool) -> RunsView {
        let at = self.selected_item();
        let last = last_of(self.current().items.len());
        self.select(
            (if down {
                if at < last {
                    at + 1
                } else {
                    last
                }
            } else if at > 0 {
                at - 1
            } else {
                0
            }) as usize,
        )
    }

    /// The state with the selected card folded up or opened.
    pub open spec fn toggled(self) -> RunsView {
        let i = run_index(self.threads, self.current().id);
        let at = self.selected_item();
        if at < self.threads[i].items.len() {
            let t = self.threads[i];
            self.with_thread(
                i,
                RunThreadModel { items: t.items.update(at, run_flipped(t.items[at])), ..t },
            )
        } else {
            self
        }
    }

    /// The run that the selected card leads to.
    pub open spec fn linked_run(self) -> Option<Seq<char>> {
        let at = self.selected_item();
        if at < self.current().items.len() {
            run_link(self.current().items[at])
        } else {
            None
        }
    }

    /// The state once the selected card was followed, and what is to be done.
    pub open spec fn followed(self) -> (RunsView, RunActionView) {
        match self.linked_run() {
            None => (self, RunActionView::Idle),
            Some(run) => {
                let i = run_place(self.threads, run);
                if i < self.threads.len() {
                    (
                        RunsView { active_thread: i as usize, sidebar_selected: i as usize, ..self }.say(
                            "Opening run "@ + clipped(run, 8),
                        ),
                        RunActionView::LoadRun(run),
                    )
                } else {
                    (
                        self.say("Run "@ + clipped(run, 8) + " not found in sidebar"@),
                        RunActionView::Idle,
                    )
                }
            },
        }
    }

    /// The state once the selected thread was opened, and what is to be done.
    pub open spec fn opened_from_sidebar(self) -> (RunsView, RunActionView) {
        let st = RunsView {
            active_thread: if self.sidebar_selected < self.threads.len() {
                self.sidebar_selected
            } else {
                (self.threads.len() - 1) as usize
            },
            ..self
        };
        (
            st,
            match st.current().run_id {
                Some(run) => RunActionView::LoadRun(run),
                None => RunActionView::Idle,
            },
        )
    }

    /// The state after a paste by key, for what was read from the clipboard.
    pub open spec fn pasted(self, read: Result<Option<String>, String>) -> RunsView {
        match read {
            Ok(Some(text)) => self.type_into(pasted_into(self.composer, text@)),
            Ok(None) => self.say("Clipboard unavailable"@),
            Err(err) => self.say("Clipboard read failed: "@ + err@),
        }
    }

    /// A key asks for what is in the clipboard.
    pub open spec fn asks_clipboard(self, key: KeyEvent) -> bool {
        &&& !(key.kind is Release)
        &&& key.is_control('v', 'V')
        &&& self.editable()
    }

    /// The state after a key that has no special meaning, and what is to be done.
    pub open spec fn moved(self, key: KeyEvent) -> (RunsView, RunActionView) {
        let none = RunActionView::Idle;
        let c = self.composer;
        let editable = self.editable();
        match key.code {
            KeyCode::Up => (
                match self.focus {
                    FocusPane::Sidebar => RunsView {
                        sidebar_selected: if self.sidebar_selected > 0 {
                            (self.sidebar_selected - 1) as usize
                        } else {
                            0
                        },
                        ..self
                    },
                    FocusPane::Main => self.stepped(false),
                    FocusPane::Input => if editable {
                        self.type_into(c.raised())
                    } else {
                        self
                    },
                },
                none,
            ),
            KeyCode::Down => (
                match self.focus {
                    FocusPane::Sidebar => RunsView {
                        sidebar_selected: if self.sidebar_selected + 1 < self.threads.len() {
                            (self.sidebar_selected + 1) as usize
                        } else {
                            (self.threads.len() - 1) as usize
                        },
                        ..self
                    },
                    FocusPane::Main => self.stepped(true),
                    FocusPane::Input => if editable {
                        self.type_into(c.lowered())
                    } else {
                        self
                    },
                },
                none,
            ),
            KeyCode::Left => (
                if editable && c.cursor != 0 {
                    self.type_into(c.moved(c.cursor - 1))
                } else {
                    self
                },
                none,
            ),
            KeyCode::Right => (
                if editable && c.cursor != c.text.len() {
                    self.type_into(c.moved(c.cursor + 1))
                } else {
                    self
                },
                none,
            ),
            KeyCode::Backspace => (
                if editable {
                    self.type_into(c.erased())
                } else {
                    self
                },
                none,
            ),
            KeyCode::Enter => match self.focus {
                FocusPane::Sidebar => self.opened_from_sidebar(),
                FocusPane::Main => self.followed(),
                FocusPane::Input => if !editable || crate::text::blank(c.text) {
                    (self, none)
                } else {
                    (self.type_into(c.emptied()), RunActionView::SendTurn(c.text))
                },
            },
            KeyCode::Char(ch) => (
                if ch == ' ' && self.focus is Main {
                    self.toggled()
                } else if editable && (ch == ' ' || !key.modifiers.control) {
                    self.type_into(c.inserted(seq![ch]))
                } else {
                    self
                },
                none,
            ),
            _ => (self, none),
        }
    }

    /// The state after a key, and what is to be done.
    pub open spec fn pressed(self, key: KeyEvent, read: Result<Option<String>, String>) -> (
        RunsView,
        RunActionView,
    ) {
        let none = RunActionView::Idle;
        let editable = self.editable();
        if key.kind is Release {
            (self, none)
        } else if key.code == KeyCode::Char('q') && key.modifiers.is_empty() {
            (self, RunActionView::Quit)
        } else if key.code is Tab {
            (RunsView { focus: self.focus.next(), ..self }, none)
        } else if key.is_control('j', 'J') || (key.code is Enter && key.modifiers.shift && editable) {
            (
                if editable {
                    self.type_into(self.composer.inserted(seq!['\n']))
                } else {
                    self
                },
                none,
            )
        } else if key.is_control('v', 'V') {
            (
                if editable {
                    self.pasted(read)
                } else {
                    self
                },
                none,
            )
        } else {
            self.moved(key)
        }
    }

    /// The state with a card more in the first thread, which is selected in it.
    pub open spec fn told_more(self, item: RunItemView) -> RunsView {
        let t = self.threads[0];
        RunsView {
            threads: self.threads.update(0, RunThreadModel { items: t.items.push(item), ..t }),
            selected: self.selected.insert(t.id, t.items.len() as usize),
            ..self
        }
    }

    /// The state with some cards more in the first thread.
    pub open spec fn told_all(self, items: Seq<RunItemView>) -> RunsView
        decreases items.len(),
    {
        if items.len() == 0 {
            self
        } else {
            self.told_all(items.drop_last()).told_more(items.last())
        }
    }

    /// The state with the conversation so far in the orchestrator's thread.
    pub open spec fn with_context(self, items: Seq<RunItemView>) -> RunsView {
        let i = run_index(self.threads, SYSTEM_THREAD_ID@);
        if i < self.threads.len() {
            RunsView {
                selected: if items.len() > 0 {
                    self.selected.insert(self.threads[i].id, (items.len() - 1) as usize)
                } else {
                    self.selected
                },
                ..self.with_thread(i, RunThreadModel { items, ..self.threads[i] })
            }
        } else {
            self
        }
    }
}

/// What is told of a run that was delegated.
pub open spec fn delegation_note(run: DelegatedRun) -> RunItemView {
    told(
        MessageRoleTag::System,
        "delegated run "@ + run.run_id@ + " agent="@ + run.agent_id@ + " state="@ + run.state@,
    )
}

/// The cards of a turn: the answer, the tool calls and the runs that were delegated.
pub open spec fn turn_cards(
    response: Seq<char>,
    calls: Seq<OrchestratorToolInvocation>,
    runs: Seq<DelegatedRun>,
) -> Seq<RunItemView> {
    seq![told(MessageRoleTag::Assistant, response)] + calls.map_values(
        |call: OrchestratorToolInvocation| call_card(call),
    ) + runs.map_values(|run: DelegatedRun| delegation_note(run))
}

impl RunsApp {
    /// There is a thread, and the cursor stands in the text.
    pub open spec fn wf(self) -> bool {
        self.threads@.len() > 0 && self.composer.wf()
    }

    /// A chat with the orchestrator's thread alone.
    pub fn new() -> (r: RunsApp)
        ensures
            r.wf(),
            r@ == (RunsView {
                threads: seq![empty_system_thread()],
                runs: Seq::empty(),
                sidebar_selected: 0,
                active_thread: 0,
                focus: FocusPane::Input,
                selected: Map::empty(),
                composer: ComposerView {
                    text: Seq::empty(),
                    cursor: 0,
                    scroll: 0,
                    visible: DEFAULT_MAX_VISIBLE_LINES as int,
                    preferred: None,
                },
                status: Some("System0 thread ready"@),
                cursor_rel: None,
            }),
    {
        let mut threads: Vec<RunThread> = Vec::new();
        threads.push(RunThread::system());
        let r = RunsApp {
            threads,
            delegated_runs: Vec::new(),
            sidebar_selected: 0,
            active_thread: 0,
            focus: FocusPane::Input,
            selected_item_by_thread: Marks::new(),
            composer: ComposerState::new(),
            status: Some("System0 thread ready".to_owned()),
            last_input_cursor_rel: None,
        };
        assert(r@.threads =~= seq![empty_system_thread()]);
        assert(r@.runs =~= Seq::empty());
        r
    }

    fn current_position(&self) -> (r: usize)
        requires
            self.threads@.len() > 0,
        ensures
            r == self@.current_index(),
            r < self.threads@.len(),
            self.threads@[r as int]@ == self@.current(),
    {
        if self.active_thread < self.threads.len() {
            self.active_thread
        } else {
            self.threads.len() - 1
        }
    }

    /// The thread on screen.
    pub fn current_thread(&self) -> (r: &RunThread)
        requires
            self.threads@.len() > 0,
        ensures
            r@ == self@.current(),
    {
        &self.threads[self.current_position()]
    }

    /// The card that is selected in the thread on screen.
    pub fn current_thread_selected_item(&self) -> (r: usize)
        requires
            self.threads@.len() > 0,
        ensures
            r == self@.selected_item(),
    {
        self.selected_item_by_thread.number(self.current_thread().id.as_str())
    }

    /// Selects a card of the thread on screen.
    pub fn set_current_thread_selected_item(&mut self, idx: usize)
        requires
            old(self).wf(),
        ensures
            final(self).wf(),
            final(self)@ == old(self)@.select(idx),
    {
        let id = self.current_thread().id.clone();
        self.selected_item_by_thread.insert(id, idx);
    }

    /// Brings the list of threads up to date with a list of runs.
    pub fn sync_runs(&mut self, runs: Vec<DelegatedRun>)
        requires
            old(self).wf(),
        ensures
            final(self).wf(),
            final(self)@ == runs_synced(old(self)@, runs@),
    {
        let ghost st = self@;
        let active_id = self.current_thread().id.clone();
        let mut pool: Vec<RunThread> = Vec::new();
        std::mem::swap(&mut pool, &mut self.threads);
        let mut threads: Vec<RunThread> = Vec::new();
        let system = match take_run_thread(&mut pool, SYSTEM_THREAD_ID) {
            Some(t) => t,
            None => RunThread::system(),
        };
        threads.push(system);
        let ghost head = seq![system@];
        let ghost pool0 = runs_without(st.threads, SYSTEM_THREAD_ID@);
        let ghost order = backwards(runs@);
        let mut left: usize = runs.len();
        proof {
            assert(order.take(0) =~= Seq::<DelegatedRun>::empty());
            assert(run_thread_views(threads@) =~= head + keep_all(pool0, order.take(0)).0);
        }
        while left > 0
            invariant
                left <= runs@.len(),
                order == backwards(runs@),
                run_thread_views(threads@) == head + keep_all(
                    pool0,
                    order.take(runs@.len() - left),
                ).0,
                run_thread_views(pool@) == keep_all(pool0, order.take(runs@.len() - left)).1,
            decreases left,
        {
            let ghost k = runs@.len() - left;
            let ghost before = run_thread_views(threads@);
            left = left - 1;
            proof {
                assert(order.take(k + 1).drop_last() =~= order.take(k));
                assert(order.take(k + 1).last() == runs@[left as int]);
            }
            let t = keep_thread(&mut pool, &runs[left]);
            threads.push(t);
            proof {
                assert(run_thread_views(threads@) =~= before.push(t@));
                assert(run_thread_views(threads@) =~= head + keep_all(pool0, order.take(k + 1)).0);
            }
        }
        assert(order.take(runs@.len() as int) =~= order);
        let ghost now = run_thread_views(threads@);
        assert(now.len() == threads@.len());
        assert(now[0] == head[0]);
        let on_screen = find_run_thread(&threads, active_id.as_str());
        self.active_thread = if on_screen < threads.len() {
            on_screen
        } else {
            0
        };
        if self.sidebar_selected >= threads.len() {
            self.sidebar_selected = threads.len() - 1;
        }
        self.threads = threads;
        self.delegated_runs = runs;
    }

    /// Puts a card into the first thread and selects it.
    pub fn append_system_item(&mut self, item: RunItem)
        requires
            old(self).wf(),
        ensures
            final(self).wf(),
            final(self)@ == old(self)@.told_more(item@),
    {
        let ghost st = self@;
        let ghost t0 = self.threads@[0]@;
        let id = self.threads[0].id.clone();
        let at: usize = self.threads[0].items.len();
        self.threads[0].items.push(item);
        self.selected_item_by_thread.insert(id, at);
        proof {
            assert(self.threads@[0]@.items =~= t0.items.push(item@));
            assert(self@.threads =~= st.told_more(item@).threads);
        }
    }

    /// Puts the conversation so far into the orchestrator's thread.
    pub fn load_system_context(&mut self, messages: Vec<OrchestratorThreadMessage>)
        requires
            old(self).wf(),
        ensures
            final(self).wf(),
            final(self)@ == old(self)@.with_context(
                messages@.map_values(|m: OrchestratorThreadMessage| card_of(m)),
            ),
    {
        let ghost st = self@;
        let ghost all = messages@;
        let ghost want = all.map_values(|m: OrchestratorThreadMessage| card_of(m));
        let mut rest = messages;
        let mut items: Vec<RunItem> = Vec::new();
        proof {
            assert(run_item_views(items@) =~= want.take(0));
            assert(all.skip(0) =~= all);
        }
        while rest.len() > 0
            invariant
                rest@.len() <= all.len(),
                rest@ == all.skip(all.len() - rest@.len()),
                want == all.map_values(|m: OrchestratorThreadMessage| card_of(m)),
                run_item_views(items@) == want.take(all.len() - rest@.len()),
            decreases rest@.len(),
        {
            let ghost k = all.len() - rest@.len();
            let m = rest.remove(0);
            proof {
                assert(all[k] == m);
                assert(rest@ =~= all.skip(k + 1));
            }
            let item = timeline_item_from_thread_message(m);
            let ghost before = run_item_views(items@);
            items.push(item);
            proof {
                assert(run_item_views(items@) =~= before.push(item@));
                assert(want.take(k + 1) =~= before.push(want[k]));
            }
        }
        assert(want.take(all.len() as int) =~= want);
        assert(want.len() == items@.len());
        let i = find_run_thread(&self.threads, SYSTEM_THREAD_ID);
        if i < self.threads.len() {
            let count: usize = items.len();
            let id = self.threads[i].id.clone();
            self.threads[i].items = items;
            if count > 0 {
                self.selected_item_by_thread.insert(id, count - 1);
            }
            assert(self@.threads =~= st.with_context(want).threads);
        }
    }

    /// Starts with the conversation so far and the list of runs.
    pub fn bootstrap(&mut self, context: Vec<OrchestratorThreadMessage>, runs: Vec<DelegatedRun>)
        requires
            old(self).wf(),
        ensures
            final(self).wf(),
            ({
                let st = runs_synced(
                    old(self)@.with_context(
                        context@.map_values(|m: OrchestratorThreadMessage| card_of(m)),
                    ),
                    runs@,
                );
                let i = run_index(st.threads, SYSTEM_THREAD_ID@);
                final(self)@ == (if i < st.threads.len() && st.threads[i].items.len() > 0 {
                    st.say("Loaded existing System0 context"@)
                } else {
                    st
                })
            }),
    {
        self.load_system_context(context);
        self.sync_runs(runs);
        let i = find_run_thread(&self.threads, SYSTEM_THREAD_ID);
        if i < self.threads.len() {
            assert(self@.threads[i as int].items.len() == self.threads@[i as int].items@.len());
            if self.threads[i].items.len() > 0 {
                self.status = Some("Loaded existing System0 context".to_owned());
            }
        }
    }

    /// Shows a message of the user before it is sent to the orchestrator.
    pub fn begin_system_turn(&mut self, message: &str)
        requires
            old(self).wf(),
        ensures
            final(self).wf(),
            final(self)@ == (RunsView {
                active_thread: 0,
                sidebar_selected: 0,
                ..old(self)@
            }).told_more(told(MessageRoleTag::User, message@)),
    {
        self.active_thread = 0;
        self.sidebar_selected = 0;
        self.append_system_item(RunItem::text(MessageRoleTag::User, message.to_owned()));
    }

    /// Shows what came of a turn.
    pub fn take_system_turn(
        &mut self,
        response: &str,
        tool_invocations: &Vec<OrchestratorToolInvocation>,
        delegated_runs: &Vec<DelegatedRun>,
    )
        requires
            old(self).wf(),
        ensures
            final(self).wf(),
            final(self)@ == old(self)@.told_all(
                turn_cards(response@, tool_invocations@, delegated_runs@),
            ),
    {
        let ghost st = self@;
        let ghost want = turn_cards(response@, tool_invocations@, delegated_runs@);
        let ghost calls = tool_invocations@.len();
        let first = RunItem::text(MessageRoleTag::Assistant, response.to_owned());
        proof {
            assert(want.take(0) =~= Seq::<RunItemView>::empty());
            assert(want.take(1).drop_last() =~= want.take(0));
            assert(want.take(1).last() == first@);
            assert(st.told_all(want.take(0)) == st);
        }
        self.append_system_item(first);
        assert(self@ == st.told_all(want.take(1)));
        let mut i: usize = 0;
        while i < tool_invocations.len()
            invariant
                i <= tool_invocations@.len(),
                calls == tool_invocations@.len(),
                self.wf(),
                want == turn_cards(response@, tool_invocations@, delegated_runs@),
                self@ == st.told_all(want.take(1 + i)),
            decreases tool_invocations@.len() - i,
        {
            let item = tool_item_from_invocation(&tool_invocations[i]);
            proof {
                assert(want.take(2 + i).drop_last() =~= want.take(1 + i));
                assert(want[1 + i] == item@);
                assert(want.take(2 + i).last() == item@);
            }
            self.append_system_item(item);
            i = i + 1;
        }
        let mut k: usize = 0;
        while k < delegated_runs.len()
            invariant
                k <= delegated_runs@.len(),
                calls == tool_invocations@.len(),
                self.wf(),
                want == turn_cards(response@, tool_invocations@, delegated_runs@),
                self@ == st.told_all(want.take(1 + calls + k)),
            decreases delegated_runs@.len() - k,
        {
            let mut note = cat3(
                "delegated run ",
                delegated_runs[k].run_id.as_str(),
                " agent=",
            );
            note.append(delegated_runs[k].agent_id.as_str());
            note.append(" state=");
            note.append(delegated_runs[k].state.as_str());
            let item = RunItem::text(MessageRoleTag::System, note);
            proof {
                let n = 1 + calls + k;
                assert(want.take(n + 1).drop_last() =~= want.take(n));
                assert(want[n] == delegation_note(delegated_runs@[k as int]));
                assert(item@ == delegation_note(delegated_runs@[k as int]));
                assert(want.take(n + 1).last() == item@);
            }
            self.append_system_item(item);
            k = k + 1;
        }
        assert(want.take(1 + calls + k) =~= want);
    }

    /// Ends a turn with the list of runs.
    pub fn end_system_turn(&mut self, runs: Vec<DelegatedRun>)
        requires
            old(self).wf(),
        ensures
            final(self).wf(),
            final(self)@ == runs_synced(old(self)@, runs@).say("Turn completed"@),
    {
        self.sync_runs(runs);
        self.status = Some("Turn completed".to_owned());
    }

    /// Takes in what is known of a run that was asked for.
    pub fn refresh_run_thread(&mut self, run_id: &str, run: DelegatedRun) -> (r: Result<
        (),
        CliError,
    >)
        requires
            old(self).wf(),
        ensures
            final(self).wf(),
            ({
                let i = run_index(old(self)@.threads, run.run_id@);
                if i < old(self)@.threads.len() {
                    &&& r is Ok
                    &&& final(self)@ == old(self)@.with_thread(
                        i,
                        RunThreadModel {
                            items: run_cards(run),
                            state: Some(run.state@),
                            ..old(self)@.threads[i]
                        },
                    ).say("Loaded run "@ + clipped(run_id@, 8))
                } else {
                    &&& r matches Err(e) && e is Usage && e.said() == "delegated run thread '"@
                        + run_id@ + "' not found"@
                    &&& final(self)@ == old(self)@
                }
            }),
    {
        let ghost st = self@;
        let i = find_run_thread(&self.threads, run.run_id.as_str());
        if i < self.threads.len() {
            self.threads[i].items = run_thread_items(&run);
            self.threads[i].state = Some(run.state);
            let short = short_run_id(run_id);
            self.status = Some(cat("Loaded run ", short.as_str()));
            assert(self@.threads =~= st.threads.update(i as int, self.threads@[i as int]@));
            return Ok(());
        }
        Err(CliError::Usage(cat3("delegated run thread '", run_id, "' not found")))
    }

    /// Selects the card before the selected one.
    pub fn select_main_prev(&mut self)
        requires
            old(self).wf(),
        ensures
            final(self).wf(),
            final(self)@ == old(self)@.stepped(false),
    {
        let selected = self.current_thread_selected_item();
        let at: usize = if selected > 0 {
            selected - 1
        } else {
            0
        };
        self.set_current_thread_selected_item(at);
    }

    /// Selects the card after the selected one.
    pub fn select_main_next(&mut self)
        requires
            old(self).wf(),
        ensures
            final(self).wf(),
            final(self)@ == old(self)@.stepped(true),
    {
        let count: usize = self.current_thread().items.len();
        let selected = self.current_thread_selected_item();
        let last: usize = if count > 0 {
            count - 1
        } else {
            0
        };
        let at: usize = if selected < last {
            selected + 1
        } else {
            last
        };
        self.set_current_thread_selected_item(at);
    }

    /// Folds the selected card up or opens it, if it can be.
    pub fn toggle_selected_item(&mut self)
        requires
            old(self).wf(),
        ensures
            final(self).wf(),
            final(self)@ == old(self)@.toggled(),
    {
        let ghost st = self@;
        let selected = self.current_thread_selected_item();
        let id = self.current_thread().id.clone();
        let i = find_run_thread(&self.threads, id.as_str());
        proof {
            lemma_run_index(st.threads, st.current().id);
        }
        assert(st.threads[i as int] == self.threads@[i as int]@);
        assert(st.threads[i as int].items.len() == self.threads@[i as int].items@.len());
        if selected < self.threads[i].items.len() {
            self.threads[i].items[selected].toggle();
            proof {
                assert(self.threads@[i as int]@.items =~= st.threads[i as int].items.update(
                    selected as int,
                    run_flipped(st.threads[i as int].items[selected as int]),
                ));
                assert(self@.threads =~= st.toggled().threads);
            }
        }
    }

    /// Shows the first thread that belongs to a run, if there is one.
    pub fn select_thread_by_run_id(&mut self, run_id: &str) -> (r: bool)
        requires
            old(self).wf(),
        ensures
            final(self).wf(),
            ({
                let i = run_place(old(self)@.threads, run_id@);
                &&& r == (i < old(self)@.threads.len())
                &&& final(self)@ == (if r {
                    RunsView {
                        active_thread: i as usize,
                        sidebar_selected: i as usize,
                        ..old(self)@
                    }
                } else {
                    old(self)@
                })
            }),
    {
        let ghost all = self@.threads;
        let mut i: usize = 0;
        assert(all.skip(0) =~= all);
        while i < self.threads.len()
            invariant
                i <= self.threads@.len(),
                self.wf(),
                self@ == old(self)@,
                all == run_thread_views(self.threads@),
                run_place(all, run_id@) == i + run_place(all.skip(i as int), run_id@),
            decreases self.threads@.len() - i,
        {
            proof {
                assert(all.skip(i as int)[0] == self.threads@[i as int]@);
                assert(all.skip(i as int).drop_first() =~= all.skip(i + 1));
            }
            if opt_same(&self.threads[i].run_id, run_id) || same(
                self.threads[i].id.as_str(),
                run_id,
            ) {
                self.active_thread = i;
                self.sidebar_selected = i;
                return true;
            }
            i = i + 1;
        }
        false
    }

    /// Follows the selected card to its run.
    pub fn open_selected_main_link(&mut self) -> (r: RunAction)
        requires
            old(self).wf(),
        ensures
            final(self).wf(),
            (final(self)@, r@) == old(self)@.followed(),
    {
        let selected = self.current_thread_selected_item();
        let link = {
            let thread = self.current_thread();
            assert(thread@.items.len() == thread.items@.len());
            if selected < thread.items.len() {
                assert(thread@.items[selected as int] == thread.items@[selected as int]@);
                thread.items[selected].linked_run_id()
            } else {
                None
            }
        };
        match link {
            None => RunAction::Idle,
            Some(run_id) => {
                let short = short_run_id(run_id.as_str());
                if self.select_thread_by_run_id(run_id.as_str()) {
                    self.status = Some(cat("Opening run ", short.as_str()));
                    return RunAction::LoadRun(run_id);
                }
                self.status = Some(cat3("Run ", short.as_str(), " not found in sidebar"));
                RunAction::Idle
            },
        }
    }

    fn can_type(&self) -> (r: bool)
        requires
            self.threads@.len() > 0,
        ensures
            r == self@.editable(),
    {
        self.focus == FocusPane::Input && !self.current_thread().read_only
    }

    /// Deals with a key, given what is in the clipboard.
    pub fn handle_key_event(
        &mut self,
        key: KeyEvent,
        read: Result<Option<String>, String>,
    ) -> (r: RunAction)
        requires
            old(self).wf(),
        ensures
            final(self).wf(),
            (final(self)@, r@) == old(self)@.pressed(key, read),
    {
        if key.kind == KeyEventKind::Release {
            return RunAction::Idle;
        }
        if key.code == KeyCode::Char('q') && key.modifiers.is_empty() {
            return RunAction::Quit;
        }
        if key.code == KeyCode::Tab {
            self.focus = self.focus.next();
            return RunAction::Idle;
        }
        let editable = self.can_type();
        if key.is_control('j', 'J') {
            if editable {
                self.composer.newline();
            }
            return RunAction::Idle;
        }
        if key.is_control('v', 'V') {
            if editable {
                match read {
                    Ok(Some(text)) => {
                        self.composer.insert_str(text.as_str());
                    },
                    Ok(None) => {
                        self.status = Some("Clipboard unavailable".to_owned());
                    },
                    Err(err) => {
                        self.status = Some(cat("Clipboard read failed: ", err.as_str()));
                    },
                }
            }
            return RunAction::Idle;
        }
        if key.code == KeyCode::Enter && key.modifiers.shift && editable {
            self.composer.newline();
            return RunAction::Idle;
        }
        self.handle_plain_key(key)
    }

    fn handle_plain_key(&mut self, key: KeyEvent) -> (r: RunAction)
        requires
            old(self).wf(),
        ensures
            final(self).wf(),
            (final(self)@, r@) == old(self)@.moved(key),
    {
        let editable = self.can_type();
        match key.code {
            KeyCode::Up => {
                match self.focus {
                    FocusPane::Sidebar => {
                        self.sidebar_selected = self.sidebar_selected.saturating_sub(1);
                    },
                    FocusPane::Main => {
                        self.select_main_prev();
                    },
                    FocusPane::Input => {
                        if editable {
                            self.composer.cursor_up();
                        }
                    },
                }
                RunAction::Idle
            },
            KeyCode::Down => {
                match self.focus {
                    FocusPane::Sidebar => {
                        let last: usize = self.threads.len() - 1;
                        self.sidebar_selected = if self.sidebar_selected < last {
                            self.sidebar_selected + 1
                        } else {
                            last
                        };
                    },
                    FocusPane::Main => {
                        self.select_main_next();
                    },
                    FocusPane::Input => {
                        if editable {
                            self.composer.cursor_down();
                        }
                    },
                }
                RunAction::Idle
            },
            KeyCode::Left => {
                if editable {
                    self.composer.cursor_left();
                }
                RunAction::Idle
            },
            KeyCode::Right => {
                if editable {
                    self.composer.cursor_right();
                }
                RunAction::Idle
            },
            KeyCode::Backspace => {
                if editable {
                    self.composer.backspace();
                }
                RunAction::Idle
            },
            KeyCode::Enter => match self.focus {
                FocusPane::Sidebar => {
                    if self.sidebar_selected < self.threads.len() {
                        self.active_thread = self.sidebar_selected;
                    } else {
                        self.active_thread = self.threads.len() - 1;
                    }
                    match &self.current_thread().run_id {
                        Some(run_id) => RunAction::LoadRun(run_id.clone()),
                        None => RunAction::Idle,
                    }
                },
                FocusPane::Main => self.open_selected_main_link(),
                FocusPane::Input => {
                    if !editable {
                        return RunAction::Idle;
                    }
                    match self.composer.submit() {
                        Some(message) => RunAction::SendTurn(message),
                        None => RunAction::Idle,
                    }
                },
            },
            KeyCode::Char(ch) => {
                if ch == ' ' && self.focus == FocusPane::Main {
                    self.toggle_selected_item();
                } else if editable && (ch == ' ' || !key.modifiers.control) {
                    self.composer.insert_char(ch);
                }
                RunAction::Idle
            },
            _ => RunAction::Idle,
        }
    }

    /// Deals with what the terminal reports. The clipboard is read only when a key asks for it.
    pub fn handle_event<C: ClipboardProvider>(&mut self, event: Event, clipboard: &mut C) -> (r:
        RunAction)
        requires
            old(self).wf(),
        ensures
            final(self).wf(),
            match event {
                Event::Key(key) => if old(self)@.asks_clipboard(key) {
                    exists|read: Result<Option<String>, String>|
                        (final(self)@, r@) == #[trigger] old(self)@.pressed(key, read) && C::gives(
                            *old(clipboard),
                            *final(clipboard),
                            read,
                        )
                } else {
                    (final(self)@, r@) == old(self)@.pressed(key, Ok(None))
                },
                Event::Paste(text) => r is Idle && final(self)@ == (if old(self)@.editable() {
                    old(self)@.type_into(pasted_into(old(self)@.composer, text@))
                } else {
                    old(self)@
                }),
                Event::Other => r is Idle && final(self)@ == old(self)@,
            },
            !(event matches Event::Key(key) && old(self)@.asks_clipboard(key)) ==> *final(clipboard)
                == *old(clipboard),
    {
        match event {
            Event::Key(key) => {
                let asks = key.kind != KeyEventKind::Release && key.is_control('v', 'V')
                    && self.can_type();
                let read = if asks {
                    clipboard.read_text()
                } else {
                    Ok(None)
                };
                self.handle_key_event(key, read)
            },
            Event::Paste(text) => {
                if self.can_type() {
                    self.composer.insert_str(text.as_str());
                }
                RunAction::Idle
            },
            Event::Other => RunAction::Idle,
        }
    }

    /// The orchestrator's thread as a document.
    pub fn system_thread_snapshot(&self) -> (r: Json)
        ensures
            r@ == runs_snapshot(self@),
    {
        let i = find_run_thread(&self.threads, SYSTEM_THREAD_ID);
        let mut messages = Json::no_items();
        let ghost want = runs_messages(self@);
        if i < self.threads.len() {
            let ghost items = self@.threads[i as int].items;
            let mut k: usize = 0;
            assert(want.take(0) =~= Seq::<JsonTree>::empty());
            while k < self.threads[i].items.len()
                invariant
                    i < self.threads@.len(),
                    k <= self.threads@[i as int].items@.len(),
                    items == run_item_views(self.threads@[i as int].items@),
                    want == items.map_values(|item: RunItemView| run_snapshot(item)),
                    messages@ == JsonTree::Array(want.take(k as int)),
                decreases self.threads@[i as int].items@.len() - k,
            {
                let value = self.threads[i].items[k].to_snapshot_value();
                messages = messages.and(value);
                proof {
                    assert(items[k as int] == self.threads@[i as int].items@[k as int]@);
                    assert(want.take(k + 1) =~= want.take(k as int).push(value@));
                }
                k = k + 1;
            }
            assert(want.take(k as int) =~= want);
        }
        Json::no_fields().with("thread_id", json::text(SYSTEM_THREAD_ID)).with("messages", messages)
    }
}

/// The cards of the orchestrator's thread as documents.
pub open spec fn runs_messages(st: RunsView) -> Seq<JsonTree> {
    let i = run_index(st.threads, SYSTEM_THREAD_ID@);
    if i < st.threads.len() {
        st.threads[i].items.map_values(|item: RunItemView| run_snapshot(item))
    } else {
        Seq::empty()
    }
}

/// The orchestrator's thread as a document.
pub open spec fn runs_snapshot(st: RunsView) -> JsonTree {
    JsonTree::no_fields().with("thread_id"@, JsonTree::Text(SYSTEM_THREAD_ID@)).with(
        "messages"@,
        JsonTree::Array(runs_messages(st)),
    )
}

// ---- laws --------------------------------------------------------------------------------

/// The thread of a run has the run's name, who works on it and how it stands, and cannot be written
/// to.
pub proof fn runs_have_their_threads(run: DelegatedRun)
    ensures
        run_thread(run).id == run.run_id@,
        run_thread(run).run_id == Some(run.run_id@),
        run_thread(run).state == Some(run.state@),
        run_thread(run).read_only,
        run_thread(run).items == run_cards(run),
        run.run_id@.len() > 8 ==> run_thread(run).title == run.agent_id@ + " ("@
            + run.run_id@.take(8) + ")"@,
        run.run_id@.len() <= 8 ==> run_thread(run).title == run.agent_id@ + " ("@ + run.run_id@
            + ")"@,
        empty_system_thread().id == "system0"@,
        !empty_system_thread().read_only,
        empty_system_thread().title == "System0"@,
        empty_system_thread().run_id is None,
        empty_system_thread().items.len() == 0,
{
}

/// A thread that is known keeps its cards, if it has any, and takes over how its run stands.
pub proof fn known_runs_keep_their_cards(pool: Seq<RunThreadModel>, run: DelegatedRun)
    ensures
        kept_thread(pool, run).state == Some(run.state@),
        kept_thread(pool, run).run_id == Some(run.run_id@),
        kept_thread(pool, run).title == run_title(run),
        kept_thread(pool, run).read_only,
        last_run_with(pool, run.run_id@) matches Some(t) ==> (t.items.len() > 0 ==> kept_thread(
            pool,
            run,
        ).items == t.items) && (t.items.len() == 0 ==> kept_thread(pool, run).items == run_cards(run)),
        last_run_with(pool, run.run_id@) is None ==> kept_thread(pool, run).items == run_cards(run)
            && kept_thread(pool, run).id == run.run_id@,
{
}

proof fn lemma_runs_without(pool: Seq<RunThreadModel>, id: Seq<char>)
    ensures
        runs_without(pool, id) == pool.filter(|t: RunThreadModel| t.id != id),
        last_run_with(pool, id) matches Some(t) ==> pool.contains(t) && t.id == id,
        last_run_with(pool, id) is None ==> forall|i: int|
            0 <= i < pool.len() ==> (#[trigger] pool[i]).id != id,
    decreases pool.len(),
{
    reveal(Seq::filter);
    if pool.len() > 0 {
        let front = pool.drop_last();
        lemma_runs_without(front, id);
        if pool.last().id == id {
            assert(pool[pool.len() - 1] == pool.last());
        } else {
            match last_run_with(front, id) {
                Some(t) => {
                    let i = choose|i: int| 0 <= i < front.len() && front[i] == t;
                    assert(pool[i] == t);
                },
                None => {
                    assert forall|i: int| 0 <= i < pool.len() implies (#[trigger] pool[i]).id != id by {
                        if i < front.len() {
                            assert(front[i] == pool[i]);
                        }
                    }
                },
            }
        }
    }
}

/// What is taken from the threads of runs is the one with the name; all others stay in their order.
pub proof fn runs_are_taken_by_name(pool: Seq<RunThreadModel>, id: Seq<char>)
    ensures
        runs_without(pool, id) == pool.filter(|t: RunThreadModel| t.id != id),
        last_run_with(pool, id) matches Some(t) ==> pool.contains(t) && t.id == id,
        last_run_with(pool, id) is None ==> forall|i: int|
            0 <= i < pool.len() ==> (#[trigger] pool[i]).id != id,
{
    lemma_runs_without(pool, id);
}

/// Runs are listed with the latest first, behind the orchestrator's thread, which keeps what was
/// said in it. The thread on the screen stays there as long as it is listed.
pub proof fn runs_are_listed_latest_first(st: RunsView, runs: Seq<DelegatedRun>, i: int)
    requires
        st.threads.len() > 0,
        0 <= i < runs.len(),
    ensures
        backwards(runs).len() == runs.len(),
        backwards(runs)[i] == runs[runs.len() - 1 - i],
        ({
            let after = runs_synced(st, runs);
            &&& after.runs == runs
            &&& after.composer == st.composer
            &&& after.selected == st.selected
            &&& after.focus == st.focus
            &&& last_run_with(st.threads, "system0"@) matches Some(t) ==> after.threads[0] == t
            &&& last_run_with(st.threads, "system0"@) is None ==> after.threads[0]
                == empty_system_thread()
            &&& (exists|k: int|
                0 <= k < after.threads.len() && (#[trigger] after.threads[k]).id == st.current().id)
                && after.threads.len() <= usize::MAX ==> after.threads[after.active_thread as int].id
                == st.current().id
        }),
{
    lemma_run_index(runs_synced(st, runs).threads, st.current().id);
}

/// The thread that is shown is the active one, or the last where there is no such thread; only the
/// orchestrator's can be written to.
pub proof fn the_active_run_is_shown(st: RunsView)
    requires
        st.threads.len() > 0,
    ensures
        st.active_thread < st.threads.len() ==> st.current() == st.threads[st.active_thread as int],
        st.active_thread >= st.threads.len() ==> st.current() == st.threads.last(),
        st.editable() <==> st.focus is Input && !st.current().read_only,
{
}

/// A step goes to the next card or to the one before, and no further than the last or the first.
pub proof fn steps_go_through_the_cards(st: RunsView)
    requires
        0 <= st.selected_item() < st.current().items.len() <= usize::MAX,
    ensures
        ({
            let id = st.current().id;
            let at = st.selected_item();
            let n = st.current().items.len();
            &&& at + 1 < n ==> st.stepped(true).selected[id] == at + 1
            &&& at + 1 == n ==> st.stepped(true).selected[id] == at
            &&& at > 0 ==> st.stepped(false).selected[id] == at - 1
            &&& at == 0 ==> st.stepped(false).selected[id] == 0
            &&& st.stepped(true).threads == st.threads
            &&& st.stepped(false).threads == st.threads
        }),
{
}

/// Only the selected card of the thread that is shown is opened or closed.
pub proof fn only_the_selected_card_is_folded(st: RunsView)
    requires
        st.threads.len() > 0,
        forall|i: int, j: int|
            0 <= i < j < st.threads.len() ==> (#[trigger] st.threads[i]).id != (
            #[trigger] st.threads[j]).id,
        st.selected_item() < st.current().items.len(),
    ensures
        ({
            let after = st.toggled();
            let i = st.current_index();
            let at = st.selected_item();
            let items = st.current().items;
            &&& after.threads[i].items == items.update(at, run_flipped(items[at]))
            &&& after.threads[i].id == st.threads[i].id
            &&& after.threads.len() == st.threads.len()
            &&& forall|j: int|
                0 <= j < st.threads.len() && j != i ==> (#[trigger] after.threads[j])
                    == st.threads[j]
            &&& after.selected == st.selected
        }),
{
    lemma_run_index(st.threads, st.current().id);
    let i = run_index(st.threads, st.current().id);
    if i < st.current_index() {
        assert(st.threads[i].id != st.threads[st.current_index()].id);
    }
}

proof fn lemma_run_place(threads: Seq<RunThreadModel>, run: Seq<char>)
    ensures
        0 <= run_place(threads, run) <= threads.len(),
        run_place(threads, run) < threads.len() ==> threads[run_place(threads, run)].run_id == Some(run)
            || threads[run_place(threads, run)].id == run,
        forall|j: int|
            0 <= j < run_place(threads, run) ==> (#[trigger] threads[j]).run_id != Some(run)
                && threads[j].id != run,
    decreases threads.len(),
{
    if threads.len() > 0 && threads[0].run_id != Some(run) && threads[0].id != run {
        let rest = threads.drop_first();
        lemma_run_place(rest, run);
        assert forall|j: int| 0 <= j < run_place(threads, run) implies (#[trigger] threads[j]).run_id
            != Some(run) && threads[j].id != run by {
            if j > 0 {
                assert(rest[j - 1] == threads[j]);
            }
        }
    }
}

/// A card that speaks of a run leads to the first thread of that run, which is then loaded; where no
/// thread is of that run, that is said.
pub proof fn links_lead_to_their_runs(st: RunsView, run: Seq<char>, i: int)
    requires
        st.linked_run() == Some(run),
        0 <= i <= st.threads.len() <= usize::MAX,
        forall|j: int|
            0 <= j < i ==> (#[trigger] st.threads[j]).run_id != Some(run) && st.threads[j].id != run,
        i < st.threads.len() ==> st.threads[i].run_id == Some(run) || st.threads[i].id == run,
    ensures
        i < st.threads.len() ==> st.followed().1 == RunActionView::LoadRun(run)
            && st.followed().0.active_thread == i && st.followed().0.sidebar_selected == i
            && st.followed().0.status == Some("Opening run "@ + clipped(run, 8)),
        i == st.threads.len() ==> st.followed().1 is Idle && st.followed().0.active_thread
            == st.active_thread && st.followed().0.status == Some(
            "Run "@ + clipped(run, 8) + " not found in sidebar"@,
        ),
{
    lemma_run_place(st.threads, run);
}

/// A card that speaks of no run leads nowhere.
pub proof fn other_cards_lead_nowhere(st: RunsView)
    ensures
        st.linked_run() is None ==> st.followed() == (st, RunActionView::Idle),
        0 <= st.selected_item() < st.current().items.len() ==> st.linked_run() == run_link(
            st.current().items[st.selected_item()],
        ),
        st.selected_item() >= st.current().items.len() ==> st.linked_run() is None,
{
}

/// What is marked in the sidebar is opened, and its run is loaded if it has one.
pub proof fn the_marked_run_is_opened(st: RunsView)
    requires
        st.sidebar_selected < st.threads.len(),
    ensures
        st.opened_from_sidebar().0.active_thread == st.sidebar_selected,
        st.threads[st.sidebar_selected as int].run_id matches Some(run) ==> st.opened_from_sidebar().1
            == RunActionView::LoadRun(run),
        st.threads[st.sidebar_selected as int].run_id is None ==> st.opened_from_sidebar().1 is Idle,
{
}

/// A letter that is typed stands where the cursor was, and Enter sends all that was typed, unless it
/// is blank.
pub proof fn typing_and_sending_to_the_orchestrator(
    st: RunsView,
    key: KeyEvent,
    read: Result<Option<String>, String>,
    ch: char,
)
    requires
        st.editable(),
        !(key.kind is Release),
        !key.modifiers.shift,
        !key.modifiers.control,
    ensures
        key.code == KeyCode::Char(ch) && ch != 'q' ==> ({
            let (after, action) = st.pressed(key, read);
            let at = st.composer.cursor;
            &&& action is Idle
            &&& after.composer.text == st.composer.text.take(at) + seq![ch]
                + st.composer.text.skip(at)
            &&& after.composer.cursor == at + 1
            &&& after.threads == st.threads
        }),
        key.code is Enter && crate::text::trimmed(st.composer.text).len() > 0 ==> st.pressed(
            key,
            read,
        ).1 == RunActionView::SendTurn(st.composer.text) && st.pressed(
            key,
            read,
        ).0.composer.text.len() == 0,
        key.code is Enter && crate::text::trimmed(st.composer.text).len() == 0 ==> st.pressed(
            key,
            read,
        ) == (st, RunActionView::Idle),
{
    crate::text::lemma_blank(st.composer.text);
}

/// What the keys do beside the letters.
pub proof fn keys_of_the_runs(st: RunsView, key: KeyEvent, read: Result<Option<String>, String>)
    requires
        !key.modifiers.shift,
        !key.modifiers.control,
        !key.modifiers.other,
    ensures
        ({
            let (after, action) = st.pressed(key, read);
            &&& key.kind is Release ==> after == st && action is Idle
            &&& !(key.kind is Release) ==> {
                &&& key.code == KeyCode::Char('q') ==> after == st && action is Quit
                &&& key.code is Tab && st.focus is Sidebar ==> after.focus is Main
                &&& key.code is Tab && st.focus is Main ==> after.focus is Input
                &&& key.code is Tab && st.focus is Input ==> after.focus is Sidebar
                &&& key.code is Up && st.focus is Main ==> after == st.stepped(false)
                &&& key.code is Down && st.focus is Main ==> after == st.stepped(true)
                &&& key.code is Up && st.focus is Sidebar && st.sidebar_selected > 0
                    ==> after.sidebar_selected == st.sidebar_selected - 1
                &&& key.code is Down && st.focus is Sidebar && st.sidebar_selected + 1
                    < st.threads.len() <= usize::MAX ==> after.sidebar_selected
                    == st.sidebar_selected + 1
                &&& key.code == KeyCode::Char(' ') && st.focus is Main ==> after == st.toggled()
                &&& key.code is Enter && st.focus is Main ==> (after, action) == st.followed()
                &&& key.code is Enter && st.focus is Sidebar ==> (after, action)
                    == st.opened_from_sidebar()
                &&& key.code is Backspace && st.editable() ==> after.composer == st.composer.erased()
                &&& key.code is Left && st.editable() ==> after.composer == st.composer.left()
                &&& key.code is Right && st.editable() ==> after.composer == st.composer.right()
                &&& key.code is Up && st.editable() ==> after.composer == st.composer.raised()
                &&& key.code is Down && st.editable() ==> after.composer == st.composer.lowered()
                &&& after.threads == st.threads || key.code == KeyCode::Char(' ')
            }
        }),
{
}

/// What is said to or by the orchestrator comes last in its thread and is selected; nothing before it
/// changes.
pub proof fn talk_comes_last(st: RunsView, item: RunItemView)
    requires
        0 < st.threads.len(),
        st.threads[0].items.len() < usize::MAX,
    ensures
        st.told_more(item).threads[0].items == st.threads[0].items.push(item),
        st.told_more(item).threads[0].id == st.threads[0].id,
        st.told_more(item).selected[st.threads[0].id] == st.threads[0].items.len(),
        st.told_more(item).threads.len() == st.threads.len(),
        forall|j: int|
            0 < j < st.threads.len() ==> (#[trigger] st.told_more(item).threads[j]) == st.threads[j],
{
}

/// All that was said is taken in, in order.
pub proof fn all_talk_is_taken_in(st: RunsView, items: Seq<RunItemView>)
    requires
        0 < st.threads.len(),
    ensures
        st.told_all(items).threads.len() == st.threads.len(),
        st.told_all(items).threads[0].items == st.threads[0].items + items,
    decreases items.len(),
{
    if items.len() > 0 {
        all_talk_is_taken_in(st, items.drop_last());
        assert(st.told_all(items).threads[0].items =~= st.threads[0].items + items);
    } else {
        assert(st.threads[0].items + items =~= st.threads[0].items);
    }
}

/// What a turn adds: the answer, then each call, then a note on each run that was begun, in order.
pub proof fn turns_are_told_in_order(
    response: Seq<char>,
    calls: Seq<OrchestratorToolInvocation>,
    runs: Seq<DelegatedRun>,
    i: int,
)
    ensures
        ({
            let cards = turn_cards(response, calls, runs);
            &&& cards.len() == 1 + calls.len() + runs.len()
            &&& cards[0] matches RunItemView::Text { role, text, .. } && role is Assistant && text
                == response
            &&& 0 <= i < calls.len() ==> (cards[1 + i] matches RunItemView::Tool {
                call_id,
                tool_id,
                status,
                arguments,
                output,
                expanded,
            } && call_id == calls[i].call_id@ && tool_id == calls[i].tool_id@ && status
                == calls[i].status@ && arguments == calls[i].arguments@ && output
                == calls[i].output@ && !expanded)
            &&& 0 <= i < runs.len() ==> (cards[1 + calls.len() + i] matches RunItemView::Text {
                role,
                text,
                ..
            } && role is System && text == "delegated run "@ + runs[i].run_id@ + " agent="@
                + runs[i].agent_id@ + " state="@ + runs[i].state@)
        }),
{
}

/// What was said before is shown in the orchestrator's thread, and the last of it is selected.
pub proof fn earlier_talk_is_shown(st: RunsView, items: Seq<RunItemView>, i: int)
    requires
        0 <= i < st.threads.len(),
        st.threads[i].id == "system0"@,
        forall|j: int| 0 <= j < i ==> (#[trigger] st.threads[j]).id != "system0"@,
        items.len() <= usize::MAX,
    ensures
        st.with_context(items).threads[i].items == items,
        st.with_context(items).threads[i].id == st.threads[i].id,
        items.len() > 0 ==> st.with_context(items).selected["system0"@] == items.len() - 1,
        items.len() == 0 ==> st.with_context(items).selected == st.selected,
        forall|j: int|
            0 <= j < st.threads.len() && j != i ==> (#[trigger] st.with_context(items).threads[j])
                == st.threads[j],
{
    lemma_run_index(st.threads, "system0"@);
}

/// Small changes change one thing and leave all others.
pub proof fn small_changes_to_the_runs(
    st: RunsView,
    text: Seq<char>,
    n: usize,
    composer: ComposerView,
    i: int,
    t: RunThreadModel,
)
    ensures
        st.say(text) == (RunsView { status: Some(text), ..st }),
        st.select(n) == (RunsView { selected: st.selected.insert(st.current().id, n), ..st }),
        st.type_into(composer) == (RunsView { composer, ..st }),
        st.with_thread(i, t) == (RunsView { threads: st.threads.update(i, t), ..st }),
{
}

/// The keys that are held with Control or Shift: a new line and the clipboard, which is read only
/// where its text can go.
pub proof fn keys_with_control_for_the_runs(
    st: RunsView,
    key: KeyEvent,
    read: Result<Option<String>, String>,
)
    requires
        !(key.kind is Release),
    ensures
        ({
            let (after, action) = st.pressed(key, read);
            let edits = st.focus is Input && !st.current().read_only;
            &&& key.modifiers.control && key.code == KeyCode::Char('j') && edits ==> after.composer
                == st.composer.inserted(seq!['\n'])
            &&& key.modifiers.shift && key.code is Enter && edits ==> after.composer
                == st.composer.inserted(seq!['\n']) && action is Idle
            &&& key.modifiers.control && key.code == KeyCode::Char('v') && edits ==> after
                == st.pasted(read)
            &&& key.modifiers.control && key.code == KeyCode::Char('v') && !edits ==> after == st
            &&& st.asks_clipboard(key) <==> edits && key.modifiers.control && (key.code
                == KeyCode::Char('v') || key.code == KeyCode::Char('V'))
        }),
{
}

/// What comes from the clipboard is typed in; where nothing comes, that is said.
pub proof fn the_clipboard_goes_to_the_orchestrator(st: RunsView, text: String, err: String)
    ensures
        st.pasted(Ok(Some(text))).composer == pasted_into(st.composer, text@),
        st.pasted(Ok(None)).status == Some("Clipboard unavailable"@),
        st.pasted(Ok(None)).composer == st.composer,
        st.pasted(Err(err)).status == Some("Clipboard read failed: "@ + err@),
        st.pasted(Err(err)).composer == st.composer,
{
}

/// A snapshot of the orchestrator's thread has its cards in their order.
pub proof fn run_snapshots_hold_the_conversation(st: RunsView, i: int, k: int)
    requires
        0 <= i < st.threads.len(),
        st.threads[i].id == "system0"@,
        forall|j: int| 0 <= j < i ==> (#[trigger] st.threads[j]).id != "system0"@,
        0 <= k < st.threads[i].items.len(),
    ensures
        runs_snapshot(st).field("thread_id"@) == Some(JsonTree::Text("system0"@)),
        runs_snapshot(st).field("messages"@) matches Some(JsonTree::Array(list)) && list.len()
            == st.threads[i].items.len() && list[k] == run_snapshot(st.threads[i].items[k]),
{
    reveal_strlit("thread_id");
    reveal_strlit("messages");
    assert("thread_id"@.len() == 9 && "messages"@.len() == 8);
    lemma_run_index(st.threads, "system0"@);
    reveal_with_fuel(crate::json::entry, 3);
}

} // verus!

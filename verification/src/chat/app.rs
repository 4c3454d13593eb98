//! The state of the chat and how it answers to keys, pastes and replies.

use vstd::prelude::*;
use crate::chat::composer::{ComposerState, ComposerView, DEFAULT_MAX_VISIBLE_LINES};
use crate::chat::events::{item_views, message};
use crate::chat::keys::{Event, KeyCode, KeyEvent, KeyEventKind};
use crate::chat::marks::{number_for, Marks};
use crate::chat::preview::short_thread_id;
use crate::chat::thread::{
    build_thread_lines, drawn, int_pairs, selected_place, selected_visible_position,
    system_thread, thread_views, visible_in, visible_items, MainFilter, ThreadModel, ThreadView,
    SYSTEM_THREAD_ID,
};
use crate::chat::timeline::{flipped, foldable, link, ItemView, MessageRoleTag, TimelineItem};
use crate::text::{cat, cat3, clipped, opt_view, same};

verus! {

/// How long a first press of Escape waits for a second, in nanoseconds.
pub const ESC_NAVIGATION_WINDOW: u64 = 850_000_000;

/// The part of the screen that keys go to.
#[derive(Debug, Clone, Copy, PartialEq, Eq, Structural)]
pub enum FocusPane {
    Sidebar,
    Main,
    Input,
}

impl FocusPane {
    /// The pane after this one.
    #[verifier::allow_in_spec]
    pub fn next(self) -> FocusPane
        returns
            (match self {
                FocusPane::Sidebar => FocusPane::Main,
                FocusPane::Main => FocusPane::Input,
                FocusPane::Input => FocusPane::Sidebar,
            }),
    {
        match self {
            FocusPane::Sidebar => FocusPane::Main,
            FocusPane::Main => FocusPane::Input,
            FocusPane::Input => FocusPane::Sidebar,
        }
    }

    /// The pane before this one.
    #[verifier::allow_in_spec]
    pub fn prev(self) -> FocusPane
        returns
            (match self {
                FocusPane::Sidebar => FocusPane::Input,
                FocusPane::Main => FocusPane::Sidebar,
                FocusPane::Input => FocusPane::Main,
            }),
    {
        match self {
            FocusPane::Sidebar => FocusPane::Input,
            FocusPane::Main => FocusPane::Sidebar,
            FocusPane::Input => FocusPane::Main,
        }
    }
}

/// Whether keys write or move about.
#[derive(Debug, Clone, Copy, PartialEq, Eq, Structural)]
pub enum InteractionMode {
    Compose,
    Navigate,
}

/// What is to be done once an event has been dealt with.
#[derive(Debug, Clone, PartialEq, Eq)]
pub enum AppAction {
    /// Nothing.
    Idle,
    Quit,
    SubmitSystemTurn(String),
    SubmitSubagentTurn { thread_id: String, message: String },
    OpenThread { thread_id: String, resurrect: bool },
}

pub enum ActionView {
    Idle,
    Quit,
    SubmitSystemTurn(Seq<char>),
    SubmitSubagentTurn { thread_id: Seq<char>, message: Seq<char> },
    OpenThread { thread_id: Seq<char>, resurrect: bool },
}

impl View for AppAction {
    type V = ActionView;

    open spec fn view(&self) -> ActionView {
        match *self {
            AppAction::Idle => ActionView::Idle,
            AppAction::Quit => ActionView::Quit,
            AppAction::SubmitSystemTurn(m) => ActionView::SubmitSystemTurn(m@),
            AppAction::SubmitSubagentTurn { thread_id, message } => ActionView::SubmitSubagentTurn {
                thread_id: thread_id@,
                message: message@,
            },
            AppAction::OpenThread { thread_id, resurrect } => ActionView::OpenThread {
                thread_id: thread_id@,
                resurrect,
            },
        }
    }
}

/// Where a paste by key gets its text from.
pub trait ClipboardProvider: Sized {
    /// Reading can take the provider from `before` to `after` and give `read`. A provider that says
    /// nothing of it can give anything.
    open spec fn gives(before: Self, after: Self, read: Result<Option<String>, String>) -> bool {
        true
    }

    /// The text in the clipboard, nothing if there is none, or what went wrong.
    fn read_text(&mut self) -> (r: Result<Option<String>, String>)
        ensures
            Self::gives(*old(self), *final(self), r),
    ;
}

/// The state of the chat. The time of the first press of Escape is in nanoseconds, counted from
/// any fixed moment.
#[derive(Debug)]
pub struct ChatApp {
    pub threads: Vec<ThreadView>,
    pub sidebar_selected: usize,
    pub active_thread: usize,
    pub focus: FocusPane,
    pub main_filter: MainFilter,
    pub selected_item_by_thread: Marks,
    pub vertical_scroll_by_thread: Marks,
    pub horizontal_scroll_by_thread: Marks,
    pub composer: ComposerState,
    pub status: Option<String>,
    pub last_input_cursor_rel: Option<(u16, u16)>,
    pub last_main_viewport_rows: usize,
    pub sidebar_collapsed: bool,
    pub sidebar_auto_collapsed: bool,
    pub mode: InteractionMode,
    pub esc_armed_at: Option<u64>,
    pub pending_thread_id: Option<String>,
    pub pending_placeholder_index_by_thread: Marks,
}

/// The state of the chat.
pub struct AppView {
    pub threads: Seq<ThreadModel>,
    pub sidebar_selected: usize,
    pub active_thread: usize,
    pub focus: FocusPane,
    pub main_filter: MainFilter,
    pub selected: Map<Seq<char>, usize>,
    pub vertical: Map<Seq<char>, usize>,
    pub horizontal: Map<Seq<char>, usize>,
    pub composer: ComposerView,
    pub status: Option<Seq<char>>,
    pub cursor_rel: Option<(u16, u16)>,
    pub viewport_rows: usize,
    pub sidebar_collapsed: bool,
    pub sidebar_auto_collapsed: bool,
    pub mode: InteractionMode,
    pub esc_armed_at: Option<u64>,
    pub pending_thread: Option<Seq<char>>,
    pub placeholders: Map<Seq<char>, usize>,
}

impl View for ChatApp {
    type V = AppView;

    open spec fn view(&self) -> AppView {
        AppView {
            threads: thread_views(self.threads@),
            sidebar_selected: self.sidebar_selected,
            active_thread: self.active_thread,
            focus: self.focus,
            main_filter: self.main_filter,
            selected: self.selected_item_by_thread@,
            vertical: self.vertical_scroll_by_thread@,
            horizontal: self.horizontal_scroll_by_thread@,
            composer: self.composer@,
            status: opt_view(self.status),
            cursor_rel: self.last_input_cursor_rel,
            viewport_rows: self.last_main_viewport_rows,
            sidebar_collapsed: self.sidebar_collapsed,
            sidebar_auto_collapsed: self.sidebar_auto_collapsed,
            mode: self.mode,
            esc_armed_at: self.esc_armed_at,
            pending_thread: opt_view(self.pending_thread_id),
            placeholders: self.pending_placeholder_index_by_thread@,
        }
    }
}

/// The position of the first thread with the given identifier, or the number of threads.
pub open spec fn thread_index(threads: Seq<ThreadModel>, id: Seq<char>) -> int
    decreases threads.len(),
{
    if threads.len() == 0 || threads[0].id == id {
        0
    } else {
        1 + thread_index(threads.drop_first(), id)
    }
}

/// What `thread_index` finds.
pub proof fn lemma_thread_index(threads: Seq<ThreadModel>, id: Seq<char>)
    ensures
        0 <= thread_index(threads, id) <= threads.len(),
        thread_index(threads, id) < threads.len() ==> threads[thread_index(threads, id)].id == id,
        forall|j: int| 0 <= j < thread_index(threads, id) ==> (#[trigger] threads[j]).id != id,
    decreases threads.len(),
{
    if threads.len() > 0 && threads[0].id != id {
        lemma_thread_index(threads.drop_first(), id);
        assert forall|j: int| 0 <= j < thread_index(threads, id) implies (#[trigger] threads[j]).id
            != id by {
            if j > 0 {
                assert(threads.drop_first()[j - 1] == threads[j]);
            }
        }
    }
}

/// The last position of a list, or zero.
pub open spec fn last_of(len: nat) -> int {
    if len == 0 {
        0
    } else {
        len - 1
    }
}

/// The first row in view once a card is in view, moving as little as possible.
pub open spec fn scrolled_to(offset: int, range: (int, int), rows: int) -> int {
    if range.0 < offset {
        range.0
    } else if range.1 >= offset + rows {
        range.1 + 1 - rows
    } else {
        offset
    }
}

/// A thread with other cards.
pub open spec fn with_items(t: ThreadModel, items: Seq<ItemView>) -> ThreadModel {
    ThreadModel { items, ..t }
}

impl AppView {
    /// The position of the thread on screen.
    pub open spec fn current_index(self) -> int {
        if self.active_thread < self.threads.len() {
            self.active_thread as int
        } else {
            self.threads.len() - 1
        }
    }

    /// The thread on screen.
    pub open spec fn current(self) -> ThreadModel {
        self.threads[self.current_index()]
    }

    /// The card that is selected in the thread on screen.
    pub open spec fn selected_item(self) -> int {
        number_for(self.selected, self.current().id)
    }

    /// How far the thread on screen is scrolled to the right.
    pub open spec fn horizontal_offset(self) -> int {
        number_for(self.horizontal, self.current().id)
    }

    /// The cards of the thread on screen that are shown.
    pub open spec fn visible(self) -> Seq<usize> {
        visible_in(self.current().items, self.main_filter)
    }

    /// The list of threads is on screen.
    pub open spec fn sidebar_shown(self) -> bool {
        !self.sidebar_collapsed && !self.sidebar_auto_collapsed
    }

    /// Text can be typed.
    pub open spec fn editable(self) -> bool {
        self.focus is Input && !self.current().read_only
    }

    pub open spec fn say(self, status: Seq<char>) -> AppView {
        AppView { status: Some(status), ..self }
    }

    pub open spec fn select(self, item: usize) -> AppView {
        AppView { selected: self.selected.insert(self.current().id, item), ..self }
    }

    pub open spec fn scroll_right_to(self, offset: usize) -> AppView {
        AppView { horizontal: self.horizontal.insert(self.current().id, offset), ..self }
    }

    pub open spec fn type_into(self, composer: ComposerView) -> AppView {
        AppView { composer, ..self }
    }

    /// The state with a card of a thread in view.
    pub open spec fn scroll_to(
        self,
        id: Seq<char>,
        ranges: Seq<(int, int)>,
        rows: int,
        place: int,
    ) -> AppView {
        let offset = if ranges.len() == 0 {
            0
        } else {
            scrolled_to(
                number_for(self.vertical, id),
                ranges[if place < ranges.len() {
                    place
                } else {
                    ranges.len() - 1
                }],
                rows,
            )
        };
        AppView { vertical: self.vertical.insert(id, offset as usize), ..self }
    }

    /// The state with the selected card in view.
    pub open spec fn in_view(self) -> AppView {
        let t = self.current();
        let last = last_of(t.items.len());
        let selected = if self.selected_item() < last {
            self.selected_item()
        } else {
            last
        };
        let d = drawn(t, selected, 1, self.main_filter, false);
        let rows = if self.viewport_rows < 1 {
            1
        } else {
            self.viewport_rows as int
        };
        self.scroll_to(t.id, d.ranges, rows, d.place)
    }

    /// The state with the selection on a card that is shown: the nearest one above, or else the
    /// first.
    pub open spec fn aligned(self) -> AppView {
        let visible = self.visible();
        if visible.len() == 0 || visible.contains(self.selected_item() as usize) {
            self
        } else {
            self.select(visible[selected_place(visible, self.selected_item())])
        }
    }

    /// The state with the selection on the card shown before, or after, the selected one.
    pub open spec fn stepped(self, down: bool) -> AppView {
        let visible = self.visible();
        if visible.len() == 0 {
            self
        } else {
            let place = selected_place(visible, self.selected_item());
            let to = if down {
                if place + 1 < visible.len() {
                    place + 1
                } else {
                    visible.len() - 1
                }
            } else if place > 0 {
                place - 1
            } else {
                0
            };
            self.select(visible[to]).in_view()
        }
    }

    /// The state with the selected card folded up or opened.
    pub open spec fn toggled(self) -> AppView {
        let st = self.aligned();
        let i = thread_index(st.threads, st.current().id);
        let k = st.selected_item();
        let items = st.threads[i].items;
        let after = if i < st.threads.len() && k < items.len() && foldable(items[k]) {
            AppView {
                threads: st.threads.update(
                    i,
                    with_items(st.threads[i], items.update(k, flipped(items[k]))),
                ),
                ..st
            }
        } else {
            st
        };
        after.in_view()
    }

    /// The state with another filter.
    pub open spec fn filtered(self, filter: MainFilter) -> AppView {
        AppView { main_filter: filter, ..self }.aligned().in_view().say(
            "Main filter: "@ + filter.name(),
        )
    }

    /// The state with the thread of the list on screen, and what is to be done.
    pub open spec fn opened_from_sidebar(self) -> (AppView, ActionView) {
        let last = last_of(self.threads.len());
        let st = AppView {
            active_thread: if self.sidebar_selected < last {
                self.sidebar_selected
            } else {
                last as usize
            },
            focus: FocusPane::Main,
            ..self
        };
        let t = st.current();
        (
            st,
            ActionView::OpenThread {
                thread_id: t.id,
                resurrect: t.id != SYSTEM_THREAD_ID@ && t.read_only,
            },
        )
    }

    /// The state with a thread on screen.
    pub open spec fn switched(self, i: int) -> AppView {
        AppView {
            active_thread: i as usize,
            sidebar_selected: i as usize,
            focus: FocusPane::Main,
            ..self
        }
    }

    /// The state after following the selected card, and what is to be done.
    pub open spec fn followed(self) -> (AppView, ActionView) {
        let st = self.aligned();
        let k = st.selected_item();
        let items = st.current().items;
        if k >= items.len() || link(items[k]) is None {
            (st, ActionView::Idle)
        } else {
            let id = link(items[k])->0;
            let i = thread_index(st.threads, id);
            if i < st.threads.len() {
                (
                    st.switched(i).say("Opening thread "@ + clipped(id, 8)),
                    ActionView::OpenThread { thread_id: id, resurrect: st.threads[i].read_only },
                )
            } else {
                (
                    st.say("Thread "@ + clipped(id, 8) + " not found in sidebar"@),
                    ActionView::Idle,
                )
            }
        }
    }

    /// The state once a message is on its way, and what is to be done.
    pub open spec fn sent(self, text: Seq<char>) -> (AppView, ActionView) {
        let id = self.current().id;
        let i = thread_index(self.threads, id);
        let t = self.threads[i];
        let items = t.items.push(message(MessageRoleTag::User, text)).push(
            message(MessageRoleTag::Assistant, "Thinking..."@),
        );
        let at = (items.len() - 1) as usize;
        (
            AppView {
                threads: self.threads.update(i, with_items(t, items)),
                placeholders: self.placeholders.insert(id, at),
                selected: self.selected.insert(id, at),
                pending_thread: Some(id),
                ..self
            }.say("Sending..."@),
            if id == SYSTEM_THREAD_ID@ {
                ActionView::SubmitSystemTurn(text)
            } else {
                ActionView::SubmitSubagentTurn { thread_id: id, message: text }
            },
        )
    }

    /// The state with the list of threads hidden or shown.
    pub open spec fn sidebar_toggled(self) -> AppView {
        let st = AppView { sidebar_collapsed: !self.sidebar_collapsed, ..self };
        let st2 = if !st.sidebar_shown() && st.focus is Sidebar {
            AppView { focus: FocusPane::Main, ..st }
        } else {
            st
        };
        st2.say(
            if st.sidebar_shown() {
                "Thread sidebar shown"@
            } else {
                "Thread sidebar hidden"@
            },
        )
    }

    /// The state with the focus on the next pane, or the one before, among those on screen.
    pub open spec fn focus_moved(self, forward: bool) -> AppView {
        let to = if forward {
            self.focus.next()
        } else {
            self.focus.prev()
        };
        let past = if forward {
            to.next()
        } else {
            to.prev()
        };
        AppView {
            focus: if to is Sidebar && !self.sidebar_shown() {
                past
            } else {
                to
            },
            ..self
        }
    }

    /// The first press of Escape still waits for the second.
    pub open spec fn armed(self, now: u64) -> bool {
        match self.esc_armed_at {
            Some(at) => now - at <= ESC_NAVIGATION_WINDOW,
            None => false,
        }
    }

    /// The state with a first press of Escape forgotten that has waited too long.
    pub open spec fn expired(self, now: u64) -> AppView {
        AppView {
            esc_armed_at: if self.armed(now) {
                self.esc_armed_at
            } else {
                None
            },
            ..self
        }
    }

    /// The state after a press of Escape.
    pub open spec fn escaped(self, now: u64) -> AppView {
        if self.mode is Navigate {
            AppView {
                mode: InteractionMode::Compose,
                focus: FocusPane::Input,
                esc_armed_at: None,
                ..self
            }.say("Input mode"@)
        } else if self.armed(now) {
            AppView {
                mode: InteractionMode::Navigate,
                focus: FocusPane::Main,
                esc_armed_at: None,
                ..self
            }.say("Navigation mode: Up/Down to move, Enter to open, Space to expand, i to edit"@)
        } else {
            AppView { esc_armed_at: Some(now), ..self }.say(
                "Press Esc again quickly to enter navigation mode"@,
            )
        }
    }

    /// The state scrolled to the left or to the right, by one column or by eight.
    pub open spec fn slid(self, right: bool, far: bool) -> AppView {
        let step = if far {
            8int
        } else {
            1
        };
        let at = self.horizontal_offset();
        self.scroll_right_to(
            (if right {
                if at + step > usize::MAX {
                    usize::MAX as int
                } else {
                    at + step
                }
            } else if at < step {
                0
            } else {
                at - step
            }) as usize,
        )
    }

    /// The filter that a digit stands for.
    pub open spec fn filter_key(code: KeyCode) -> Option<MainFilter> {
        match code {
            KeyCode::Char(c) => if c == '1' {
                Some(MainFilter::All)
            } else if c == '2' {
                Some(MainFilter::DelegatesOnly)
            } else if c == '3' {
                Some(MainFilter::FailuresOnly)
            } else if c == '4' {
                Some(MainFilter::SystemToolsOnly)
            } else {
                None
            },
            _ => None,
        }
    }

    /// The state after a key that moves about, and what is to be done.
    pub open spec fn navigated(self, key: KeyEvent) -> (AppView, ActionView) {
        let none = ActionView::Idle;
        let bare = key.modifiers.is_empty();
        match key.code {
            KeyCode::Char(c) if c == 'i' || c == 'I' => (
                AppView {
                    mode: InteractionMode::Compose,
                    focus: FocusPane::Input,
                    ..self
                }.say("Input mode"@),
                none,
            ),
            KeyCode::Up if bare => (self.stepped(false), none),
            KeyCode::Char(c) if c == 'k' && bare => (self.stepped(false), none),
            KeyCode::Down if bare => (self.stepped(true), none),
            KeyCode::Char(c) if c == 'j' && bare => (self.stepped(true), none),
            KeyCode::Left => (self.slid(false, key.modifiers.shift), none),
            KeyCode::Right => (self.slid(true, key.modifiers.shift), none),
            KeyCode::Home => (self.scroll_right_to(0), none),
            KeyCode::Char(c) if c == ' ' => (self.toggled(), none),
            KeyCode::Enter => self.followed(),
            _ => match Self::filter_key(key.code) {
                Some(f) if bare => (self.filtered(f), none),
                _ => (self, none),
            },
        }
    }

    /// The state after a paste by key, for what was read from the clipboard.
    pub open spec fn pasted(self, read: Result<Option<String>, String>) -> AppView {
        match read {
            Ok(Some(text)) => self.type_into(pasted_into(self.composer, text@)),
            Ok(None) => self.say("Clipboard unavailable"@),
            Err(err) => self.say("Clipboard read failed: "@ + err@),
        }
    }

    /// A key asks for what is in the clipboard.
    pub open spec fn asks_clipboard(self, key: KeyEvent) -> bool {
        &&& !(key.kind is Release)
        &&& self.mode is Compose
        &&& key.is_control('v', 'V')
        &&& self.editable()
    }

    /// The state after a key while text is written, and what is to be done.
    pub open spec fn composed(self, key: KeyEvent, read: Result<Option<String>, String>) -> (
        AppView,
        ActionView,
    ) {
        let none = ActionView::Idle;
        let c = self.composer;
        let editable = self.editable();
        let bare = key.modifiers.is_empty();
        if key.code is BackTab || (key.code is Tab && key.modifiers.shift) {
            (self.focus_moved(false), none)
        } else if key.code is Tab {
            (self.focus_moved(true), none)
        } else if key.is_control('j', 'J') || key.is_control('n', 'N') {
            (
                if editable {
                    self.type_into(c.inserted(seq!['\n']))
                } else {
                    self
                },
                none,
            )
        } else if key.is_control('v', 'V') {
            (
                if editable {
                    self.pasted(read)
                } else {
                    self
                },
                none,
            )
        } else if key.code is Enter && key.modifiers.shift && editable {
            (self.type_into(c.inserted(seq!['\n'])), none)
        } else {
            match key.code {
                KeyCode::Up => (
                    match self.focus {
                        FocusPane::Sidebar => AppView {
                            sidebar_selected: if self.sidebar_selected > 0 {
                                (self.sidebar_selected - 1) as usize
                            } else {
                                0
                            },
                            ..self
                        },
                        FocusPane::Main => self.stepped(false),
                        FocusPane::Input => if editable {
                            self.type_into(c.raised())
                        } else {
                            self
                        },
                    },
                    none,
                ),
                KeyCode::Down => (
                    match self.focus {
                        FocusPane::Sidebar => AppView {
                            sidebar_selected: if self.sidebar_selected + 1 < self.threads.len() {
                                (self.sidebar_selected + 1) as usize
                            } else {
                                last_of(self.threads.len()) as usize
                            },
                            ..self
                        },
                        FocusPane::Main => self.stepped(true),
                        FocusPane::Input => if editable {
                            self.type_into(c.lowered())
                        } else {
                            self
                        },
                    },
                    none,
                ),
                KeyCode::Left => (
                    if self.focus is Main {
                        self.slid(false, key.modifiers.shift)
                    } else if editable {
                        self.type_into(
                            if c.cursor == 0 {
                                c
                            } else {
                                c.moved(c.cursor - 1)
                            },
                        )
                    } else {
                        self
                    },
                    none,
                ),
                KeyCode::Right => (
                    if self.focus is Main {
                        self.slid(true, key.modifiers.shift)
                    } else if editable {
                        self.type_into(
                            if c.cursor == c.text.len() {
                                c
                            } else {
                                c.moved(c.cursor + 1)
                            },
                        )
                    } else {
                        self
                    },
                    none,
                ),
                KeyCode::Home => (
                    if self.focus is Main {
                        self.scroll_right_to(0)
                    } else {
                        self
                    },
                    none,
                ),
                KeyCode::Backspace => (
                    if editable {
                        self.type_into(c.erased())
                    } else {
                        self
                    },
                    none,
                ),
                KeyCode::Enter => match self.focus {
                    FocusPane::Sidebar => self.opened_from_sidebar(),
                    FocusPane::Main => self.followed(),
                    FocusPane::Input => if !editable || crate::text::blank(c.text) {
                        (self, none)
                    } else {
                        self.type_into(c.emptied()).sent(c.text)
                    },
                },
                KeyCode::Char(ch) => if ch == ' ' {
                    (
                        if self.focus is Main {
                            self.toggled()
                        } else if editable {
                            self.type_into(c.inserted(seq![' ']))
                        } else {
                            self
                        },
                        none,
                    )
                } else if self.focus is Main && bare && Self::filter_key(key.code) is Some {
                    (self.filtered(Self::filter_key(key.code)->0), none)
                } else if editable && !key.modifiers.control {
                    (self.type_into(c.inserted(seq![ch])), none)
                } else {
                    (self, none)
                },
                _ => (self, none),
            }
        }
    }

    /// The state after a key at the time `now`, for what is in the clipboard, and what is to be
    /// done.
    pub open spec fn pressed(
        self,
        key: KeyEvent,
        read: Result<Option<String>, String>,
        now: u64,
    ) -> (AppView, ActionView) {
        if key.kind is Release {
            (self, ActionView::Idle)
        } else {
            let st = self.expired(now);
            let calm = AppView { esc_armed_at: None, ..st };
            if key.code == KeyCode::Char('q') && key.modifiers.is_empty() {
                (st, ActionView::Quit)
            } else if key.code is Esc {
                (st.escaped(now), ActionView::Idle)
            } else if key.is_control('b', 'B') {
                (calm.sidebar_toggled(), ActionView::Idle)
            } else if st.mode is Navigate {
                calm.navigated(key)
            } else {
                calm.composed(key, read)
            }
        }
    }
}

/// The input box after a text was put in that may be empty.
pub open spec fn pasted_into(c: ComposerView, text: Seq<char>) -> ComposerView {
    let clean = crate::chat::composer::normalized(text);
    if clean.len() == 0 {
        c
    } else {
        c.inserted(clean)
    }
}

impl ChatApp {
    /// There is a thread, and the cursor stands in the text.
    pub open spec fn wf(self) -> bool {
        self.threads@.len() > 0 && self.composer.wf()
    }

    /// A chat with the orchestrator's thread alone.
    pub fn new() -> (r: ChatApp)
        ensures
            r.wf(),
            r@ == (AppView {
                threads: seq![system_thread()],
                sidebar_selected: 0,
                active_thread: 0,
                focus: FocusPane::Input,
                main_filter: MainFilter::All,
                selected: Map::empty(),
                vertical: Map::empty(),
                horizontal: Map::empty(),
                composer: r.composer@,
                status: Some("System0 thread ready"@),
                cursor_rel: None,
                viewport_rows: 1,
                sidebar_collapsed: false,
                sidebar_auto_collapsed: false,
                mode: InteractionMode::Compose,
                esc_armed_at: None,
                pending_thread: None,
                placeholders: Map::empty(),
            }),
            r.composer@ == (ComposerView {
                text: Seq::empty(),
                cursor: 0,
                scroll: 0,
                visible: DEFAULT_MAX_VISIBLE_LINES as int,
                preferred: None,
            }),
    {
        let mut threads: Vec<ThreadView> = Vec::new();
        threads.push(ThreadView::system());
        let r = ChatApp {
            threads,
            sidebar_selected: 0,
            active_thread: 0,
            focus: FocusPane::Input,
            main_filter: MainFilter::All,
            selected_item_by_thread: Marks::new(),
            vertical_scroll_by_thread: Marks::new(),
            horizontal_scroll_by_thread: Marks::new(),
            composer: ComposerState::new(),
            status: Some("System0 thread ready".to_owned()),
            last_input_cursor_rel: None,
            last_main_viewport_rows: 1,
            sidebar_collapsed: false,
            sidebar_auto_collapsed: false,
            mode: InteractionMode::Compose,
            esc_armed_at: None,
            pending_thread_id: None,
            pending_placeholder_index_by_thread: Marks::new(),
        };
        assert(r@.threads =~= seq![system_thread()]);
        r
    }

    fn current_position(&self) -> (r: usize)
        requires
            self.threads@.len() > 0,
        ensures
            r == self@.current_index(),
            r < self.threads@.len(),
            self.threads@[r as int]@ == self@.current(),
    {
        if self.active_thread < self.threads.len() {
            self.active_thread
        } else {
            self.threads.len() - 1
        }
    }

    /// The thread on screen.
    pub fn current_thread(&self) -> (r: &ThreadView)
        requires
            self.threads@.len() > 0,
        ensures
            r@ == self@.current(),
    {
        &self.threads[self.current_position()]
    }

    fn find_thread(&self, id: &str) -> (r: usize)
        ensures
            r == thread_index(self@.threads, id@),
            r <= self.threads@.len(),
    {
        let ghost all = self@.threads;
        let mut i: usize = 0;
        assert(all.skip(0) =~= all);
        while i < self.threads.len()
            invariant
                i <= self.threads@.len(),
                all == thread_views(self.threads@),
                thread_index(all, id@) == i + thread_index(all.skip(i as int), id@),
            decreases self.threads@.len() - i,
        {
            proof {
                assert(all.skip(i as int)[0] == self.threads@[i as int]@);
                assert(all.skip(i as int).drop_first() =~= all.skip(i + 1));
            }
            if same(self.threads[i].id.as_str(), id) {
                return i;
            }
            i = i + 1;
        }
        i
    }

    /// The card that is selected in the thread on screen.
    pub fn current_thread_selected_item(&self) -> (r: usize)
        requires
            self.threads@.len() > 0,
        ensures
            r == self@.selected_item(),
    {
        self.selected_item_by_thread.number(self.current_thread().id.as_str())
    }

    /// Selects a card of the thread on screen.
    pub fn set_current_thread_selected_item(&mut self, idx: usize)
        requires
            old(self).wf(),
        ensures
            final(self).wf(),
            final(self)@ == old(self)@.select(idx),
    {
        let id = self.current_thread().id.clone();
        self.selected_item_by_thread.insert(id, idx);
    }

    /// How far the thread on screen is scrolled to the right.
    pub fn current_thread_horizontal_offset(&self) -> (r: usize)
        requires
            self.threads@.len() > 0,
        ensures
            r == self@.horizontal_offset(),
    {
        self.horizontal_scroll_by_thread.number(self.current_thread().id.as_str())
    }

    /// Scrolls the thread on screen to the right.
    pub fn set_current_thread_horizontal_offset(&mut self, offset: usize)
        requires
            old(self).wf(),
        ensures
            final(self).wf(),
            final(self)@ == old(self)@.scroll_right_to(offset),
    {
        let id = self.current_thread().id.clone();
        self.horizontal_scroll_by_thread.insert(id, offset);
    }

    /// Whether the list of threads is on screen.
    pub fn sidebar_visible(&self) -> (r: bool)
        ensures
            r == self@.sidebar_shown(),
    {
        !self.sidebar_collapsed && !self.sidebar_auto_collapsed
    }

    /// The cards of the thread on screen that are shown.
    pub fn current_visible_item_indices(&self) -> (r: Vec<usize>)
        requires
            self.threads@.len() > 0,
        ensures
            r@ == self@.visible(),
    {
        visible_items(&self.current_thread().items, self.main_filter)
    }

    /// Puts the selection on a card that is shown.
    pub fn align_selection_to_filter_current(&mut self)
        requires
            old(self).wf(),
        ensures
            final(self).wf(),
            final(self)@ == old(self)@.aligned(),
    {
        let visible = self.current_visible_item_indices();
        if visible.len() == 0 {
            return;
        }
        let selected = self.current_thread_selected_item();
        let place = selected_visible_position(&visible, selected);
        proof {
            lemma_place(visible@, selected as int);
        }
        if visible[place] == selected {
            assert(visible@.contains(selected));
            return;
        }
        proof {
            if visible@.contains(selected) {
                lemma_place_of(visible@, selected as int);
            }
        }
        self.set_current_thread_selected_item(visible[place]);
    }

    /// Scrolls a thread by as little as needed to have a card of it in view.
    pub fn ensure_selected_visible_for(
        &mut self,
        thread_id: &str,
        ranges: &Vec<(usize, usize)>,
        viewport_rows: usize,
        selected_idx: usize,
    )
        requires
            viewport_rows >= 1,
        ensures
            final(self)@ == old(self)@.scroll_to(
                thread_id@,
                int_pairs(ranges@),
                viewport_rows as int,
                selected_idx as int,
            ),
            final(self).threads == old(self).threads,
            final(self).composer == old(self).composer,
    {
        if ranges.len() == 0 {
            self.vertical_scroll_by_thread.insert(thread_id.to_owned(), 0);
            return;
        }
        let selected: usize = if selected_idx < ranges.len() {
            selected_idx
        } else {
            ranges.len() - 1
        };
        let start = ranges[selected].0;
        let end = ranges[selected].1;
        let mut offset = self.vertical_scroll_by_thread.number(thread_id);
        if start < offset {
            offset = start;
        } else if end >= offset && end - offset >= viewport_rows {
            offset = end - (viewport_rows - 1);
        }
        self.vertical_scroll_by_thread.insert(thread_id.to_owned(), offset);
    }

    /// Scrolls the thread on screen by as little as needed to have the selected card in view.
    pub fn ensure_selected_visible_current(&mut self)
        requires
            old(self).wf(),
        ensures
            final(self).wf(),
            final(self)@ == old(self)@.in_view(),
    {
        let at = self.current_position();
        let id = self.threads[at].id.clone();
        let len = self.threads[at].items.len();
        assert(self@.current().items.len() == len);
        let last: usize = if len == 0 {
            0
        } else {
            len - 1
        };
        let chosen = self.current_thread_selected_item();
        let selected: usize = if chosen < last {
            chosen
        } else {
            last
        };
        let (_, ranges, place) = build_thread_lines(
            &self.threads[at],
            selected,
            1,
            self.main_filter,
            false,
        );
        let rows: usize = if self.last_main_viewport_rows < 1 {
            1
        } else {
            self.last_main_viewport_rows
        };
        self.ensure_selected_visible_for(id.as_str(), &ranges, rows, place);
    }

    /// Selects the card shown before the selected one.
    pub fn select_main_prev(&mut self)
        requires
            old(self).wf(),
        ensures
            final(self).wf(),
            final(self)@ == old(self)@.stepped(false),
    {
        let visible = self.current_visible_item_indices();
        if visible.len() == 0 {
            return;
        }
        let selected = self.current_thread_selected_item();
        let place = selected_visible_position(&visible, selected);
        let to: usize = if place > 0 {
            place - 1
        } else {
            0
        };
        self.set_current_thread_selected_item(visible[to]);
        self.ensure_selected_visible_current();
    }

    /// Selects the card shown after the selected one.
    pub fn select_main_next(&mut self)
        requires
            old(self).wf(),
        ensures
            final(self).wf(),
            final(self)@ == old(self)@.stepped(true),
    {
        let visible = self.current_visible_item_indices();
        if visible.len() == 0 {
            return;
        }
        let selected = self.current_thread_selected_item();
        let place = selected_visible_position(&visible, selected);
        let to: usize = if place < visible.len() - 1 {
            place + 1
        } else {
            visible.len() - 1
        };
        self.set_current_thread_selected_item(visible[to]);
        self.ensure_selected_visible_current();
    }

    /// Folds the selected card up, or opens it.
    pub fn toggle_selected_item(&mut self)
        requires
            old(self).wf(),
        ensures
            final(self).wf(),
            final(self)@ == old(self)@.toggled(),
    {
        self.align_selection_to_filter_current();
        let ghost st = self@;
        let selected = self.current_thread_selected_item();
        let id = self.current_thread().id.clone();
        let i = self.find_thread(id.as_str());
        if i < self.threads.len() && selected < self.threads[i].items.len() {
            let ghost before = self.threads@;
            let ghost items = self.threads@[i as int].items@;
            assert(st.threads[i as int] == before[i as int]@);
            assert(st.threads[i as int].items[selected as int] == items[selected as int]@);
            if self.threads[i].items[selected].is_toggleable() {
                self.threads[i].items[selected].toggle();
                proof {
                    let k = selected as int;
                    assert(item_views(self.threads@[i as int].items@) =~= item_views(items).update(
                        k,
                        flipped(items[k]@),
                    ));
                    assert(self@.threads =~= st.threads.update(
                        i as int,
                        with_items(
                            st.threads[i as int],
                            st.threads[i as int].items.update(k, flipped(items[k]@)),
                        ),
                    ));
                }
            }
        }
        self.ensure_selected_visible_current();
    }

    /// Chooses which cards are shown.
    pub fn set_main_filter(&mut self, filter: MainFilter)
        requires
            old(self).wf(),
        ensures
            final(self).wf(),
            final(self)@ == old(self)@.filtered(filter),
    {
        self.main_filter = filter;
        self.align_selection_to_filter_current();
        self.ensure_selected_visible_current();
        self.status = Some(cat("Main filter: ", filter.label()));
    }

    /// Opens the thread that is selected in the list.
    pub fn open_selected_sidebar_thread(&mut self) -> (r: AppAction)
        requires
            old(self).wf(),
        ensures
            final(self).wf(),
            (final(self)@, r@) == old(self)@.opened_from_sidebar(),
    {
        let last: usize = self.threads.len() - 1;
        self.active_thread = if self.sidebar_selected < last {
            self.sidebar_selected
        } else {
            last
        };
        self.focus = FocusPane::Main;
        let thread = self.current_thread();
        let resurrect = !same(thread.id.as_str(), SYSTEM_THREAD_ID) && thread.read_only;
        AppAction::OpenThread { thread_id: thread.id.clone(), resurrect }
    }

    /// Puts a thread on screen, if there is one with the given identifier.
    pub fn select_thread_by_id(&mut self, thread_id: &str) -> (r: bool)
        requires
            old(self).wf(),
        ensures
            final(self).wf(),
            r == (thread_index(old(self)@.threads, thread_id@) < old(self)@.threads.len()),
            final(self)@ == (if r {
                old(self)@.switched(thread_index(old(self)@.threads, thread_id@))
            } else {
                old(self)@
            }),
    {
        let i = self.find_thread(thread_id);
        if i >= self.threads.len() {
            return false;
        }
        self.active_thread = i;
        self.sidebar_selected = i;
        self.focus = FocusPane::Main;
        true
    }

    /// Opens the thread that the selected card leads to.
    pub fn open_selected_main_link(&mut self) -> (r: AppAction)
        requires
            old(self).wf(),
        ensures
            final(self).wf(),
            (final(self)@, r@) == old(self)@.followed(),
    {
        self.align_selection_to_filter_current();
        let selected = self.current_thread_selected_item();
        let at = self.current_position();
        assert(self@.current().items.len() == self.threads@[at as int].items@.len());
        if selected >= self.threads[at].items.len() {
            return AppAction::Idle;
        }
        assert(self@.current().items[selected as int]
            == self.threads@[at as int].items@[selected as int]@);
        match self.threads[at].items[selected].linked_thread_id() {
            None => AppAction::Idle,
            Some(id) => {
                let ghost st = self@;
                proof {
                    lemma_thread_index(st.threads, id@);
                }
                if self.select_thread_by_id(id.as_str()) {
                    let resurrect = self.current_thread().read_only;
                    assert(st.threads.len() == self.threads.len());
                    assert(self@.current() == st.threads[thread_index(st.threads, id@)]);
                    self.status = Some(
                        cat("Opening thread ", short_thread_id(id.as_str()).as_str()),
                    );
                    AppAction::OpenThread { thread_id: id, resurrect }
                } else {
                    self.status = Some(
                        cat3(
                            "Thread ",
                            short_thread_id(id.as_str()).as_str(),
                            " not found in sidebar",
                        ),
                    );
                    AppAction::Idle
                }
            },
        }
    }

    /// Shows a message in the thread on screen, with a note that the answer is awaited.
    pub fn start_local_send(&mut self, message: String) -> (r: AppAction)
        requires
            old(self).wf(),
        ensures
            final(self).wf(),
            (final(self)@, r@) == old(self)@.sent(message@),
    {
        let ghost st = self@;
        let id = self.current_thread().id.clone();
        let is_system = same(id.as_str(), SYSTEM_THREAD_ID);
        let i = self.find_thread(id.as_str());
        proof {
            lemma_thread_index(st.threads, id@);
            assert(st.threads[st.current_index()].id == id@);
        }
        if i < self.threads.len() {
            let ghost items = self.threads@[i as int].items@;
            assert(st.threads[i as int] == self.threads@[i as int]@);
            self.threads[i].items.push(TimelineItem::text(MessageRoleTag::User, message.clone()));
            self.threads[i].items.push(
                TimelineItem::text(MessageRoleTag::Assistant, "Thinking...".to_owned()),
            );
            let at: usize = self.threads[i].items.len() - 1;
            proof {
                assert(item_views(self.threads@[i as int].items@) =~= item_views(items).push(
                    crate::chat::events::message(MessageRoleTag::User, message@),
                ).push(
                    crate::chat::events::message(MessageRoleTag::Assistant, "Thinking..."@),
                ));
                assert(self@.threads =~= st.sent(message@).0.threads);
            }
            self.pending_placeholder_index_by_thread.insert(id.clone(), at);
            self.selected_item_by_thread.insert(id.clone(), at);
        }
        self.pending_thread_id = Some(id.clone());
        self.status = Some("Sending...".to_owned());
        if is_system {
            AppAction::SubmitSystemTurn(message)
        } else {
            AppAction::SubmitSubagentTurn { thread_id: id, message }
        }
    }

    /// Hides the list of threads, or shows it.
    pub fn toggle_sidebar(&mut self)
        requires
            old(self).wf(),
        ensures
            final(self).wf(),
            final(self)@ == old(self)@.sidebar_toggled(),
    {
        self.sidebar_collapsed = !self.sidebar_collapsed;
        let shown = self.sidebar_visible();
        if !shown && self.focus == FocusPane::Sidebar {
            self.focus = FocusPane::Main;
        }
        let text = if shown {
            "Thread sidebar shown"
        } else {
            "Thread sidebar hidden"
        };
        self.status = Some(text.to_owned());
    }

    /// Moves the focus to the next pane on screen.
    pub fn cycle_focus_forward(&mut self)
        requires
            old(self).wf(),
        ensures
            final(self).wf(),
            final(self)@ == old(self)@.focus_moved(true),
    {
        let mut next = self.focus.next();
        if next == FocusPane::Sidebar && !self.sidebar_visible() {
            next = next.next();
        }
        self.focus = next;
    }

    /// Moves the focus to the pane before, among those on screen.
    pub fn cycle_focus_backward(&mut self)
        requires
            old(self).wf(),
        ensures
            final(self).wf(),
            final(self)@ == old(self)@.focus_moved(false),
    {
        let mut prev = self.focus.prev();
        if prev == FocusPane::Sidebar && !self.sidebar_visible() {
            prev = prev.prev();
        }
        self.focus = prev;
    }

    fn is_armed(&self, now: u64) -> (r: bool)
        ensures
            r == self@.armed(now),
    {
        match self.esc_armed_at {
            Some(at) => now <= at || now - at <= ESC_NAVIGATION_WINDOW,
            None => false,
        }
    }

    /// Forgets a first press of Escape that has waited too long.
    pub fn expire_esc_arm(&mut self, now: u64)
        requires
            old(self).wf(),
        ensures
            final(self).wf(),
            final(self)@ == old(self)@.expired(now),
    {
        if !self.is_armed(now) {
            self.esc_armed_at = None;
        }
    }

    /// Deals with a press of Escape.
    pub fn handle_escape_press(&mut self, now: u64) -> (r: AppAction)
        requires
            old(self).wf(),
        ensures
            final(self).wf(),
            final(self)@ == old(self)@.escaped(now),
            r is Idle,
    {
        if self.mode == InteractionMode::Navigate {
            self.mode = InteractionMode::Compose;
            self.focus = FocusPane::Input;
            self.esc_armed_at = None;
            self.status = Some("Input mode".to_owned());
            return AppAction::Idle;
        }
        if self.is_armed(now) {
            self.mode = InteractionMode::Navigate;
            self.focus = FocusPane::Main;
            self.esc_armed_at = None;
            self.status = Some(
                "Navigation mode: Up/Down to move, Enter to open, Space to expand, i to edit".to_owned(),
            );
            return AppAction::Idle;
        }
        self.esc_armed_at = Some(now);
        self.status = Some("Press Esc again quickly to enter navigation mode".to_owned());
        AppAction::Idle
    }

    fn slide(&mut self, right: bool, far: bool)
        requires
            old(self).wf(),
        ensures
            final(self).wf(),
            final(self)@ == old(self)@.slid(right, far),
    {
        let step: usize = if far {
            8
        } else {
            1
        };
        let at = self.current_thread_horizontal_offset();
        let to = if right {
            at.saturating_add(step)
        } else {
            at.saturating_sub(step)
        };
        self.set_current_thread_horizontal_offset(to);
    }

    fn filter_for(code: KeyCode) -> (r: Option<MainFilter>)
        ensures
            r == AppView::filter_key(code),
    {
        match code {
            KeyCode::Char(c) => if c == '1' {
                Some(MainFilter::All)
            } else if c == '2' {
                Some(MainFilter::DelegatesOnly)
            } else if c == '3' {
                Some(MainFilter::FailuresOnly)
            } else if c == '4' {
                Some(MainFilter::SystemToolsOnly)
            } else {
                None
            },
            _ => None,
        }
    }

    /// Deals with a key that moves about.
    pub fn handle_navigation_key(&mut self, key: KeyEvent) -> (r: AppAction)
        requires
            old(self).wf(),
        ensures
            final(self).wf(),
            (final(self)@, r@) == old(self)@.navigated(key),
    {
        let bare = key.modifiers.is_empty();
        match key.code {
            KeyCode::Char(c) => {
                if c == 'i' || c == 'I' {
                    self.mode = InteractionMode::Compose;
                    self.focus = FocusPane::Input;
                    self.status = Some("Input mode".to_owned());
                } else if c == 'k' && bare {
                    self.select_main_prev();
                } else if c == 'j' && bare {
                    self.select_main_next();
                } else if c == ' ' {
                    self.toggle_selected_item();
                } else if bare {
                    match Self::filter_for(key.code) {
                        Some(f) => {
                            self.set_main_filter(f);
                        },
                        None => {},
                    }
                }
                AppAction::Idle
            },
            KeyCode::Up => {
                if bare {
                    self.select_main_prev();
                }
                AppAction::Idle
            },
            KeyCode::Down => {
                if bare {
                    self.select_main_next();
                }
                AppAction::Idle
            },
            KeyCode::Left => {
                self.slide(false, key.modifiers.shift);
                AppAction::Idle
            },
            KeyCode::Right => {
                self.slide(true, key.modifiers.shift);
                AppAction::Idle
            },
            KeyCode::Home => {
                self.set_current_thread_horizontal_offset(0);
                AppAction::Idle
            },
            KeyCode::Enter => self.open_selected_main_link(),
            _ => AppAction::Idle,
        }
    }

    fn can_type(&self) -> (r: bool)
        requires
            self.threads@.len() > 0,
        ensures
            r == self@.editable(),
    {
        self.focus == FocusPane::Input && !self.current_thread().read_only
    }

    fn paste(&mut self, read: Result<Option<String>, String>)
        requires
            old(self).wf(),
        ensures
            final(self).wf(),
            final(self)@ == old(self)@.pasted(read),
    {
        match read {
            Ok(found) => match found {
                Some(text) => {
                    self.composer.insert_str(text.as_str());
                },
                None => {
                    self.status = Some("Clipboard unavailable".to_owned());
                },
            },
            Err(err) => {
                self.status = Some(cat("Clipboard read failed: ", err.as_str()));
            },
        }
    }

    fn handle_compose_key(&mut self, key: KeyEvent, read: Result<Option<String>, String>) -> (r:
        AppAction)
        requires
            old(self).wf(),
        ensures
            final(self).wf(),
            (final(self)@, r@) == old(self)@.composed(key, read),
    {
        let editable = self.can_type();
        let bare = key.modifiers.is_empty();
        if key.code == KeyCode::BackTab || (key.code == KeyCode::Tab && key.modifiers.shift) {
            self.cycle_focus_backward();
            return AppAction::Idle;
        }
        if key.code == KeyCode::Tab {
            self.cycle_focus_forward();
            return AppAction::Idle;
        }
        if key.is_control('j', 'J') || key.is_control('n', 'N') {
            if editable {
                self.composer.newline();
            }
            return AppAction::Idle;
        }
        if key.is_control('v', 'V') {
            if editable {
                self.paste(read);
            }
            return AppAction::Idle;
        }
        if key.code == KeyCode::Enter && key.modifiers.shift && editable {
            self.composer.newline();
            return AppAction::Idle;
        }
        match key.code {
            KeyCode::Up => {
                match self.focus {
                    FocusPane::Sidebar => {
                        self.sidebar_selected = self.sidebar_selected.saturating_sub(1);
                    },
                    FocusPane::Main => {
                        self.select_main_prev();
                    },
                    FocusPane::Input => {
                        if editable {
                            self.composer.cursor_up();
                        }
                    },
                }
                AppAction::Idle
            },
            KeyCode::Down => {
                match self.focus {
                    FocusPane::Sidebar => {
                        let last: usize = self.threads.len() - 1;
                        self.sidebar_selected = if self.sidebar_selected < last {
                            self.sidebar_selected + 1
                        } else {
                            last
                        };
                    },
                    FocusPane::Main => {
                        self.select_main_next();
                    },
                    FocusPane::Input => {
                        if editable {
                            self.composer.cursor_down();
                        }
                    },
                }
                AppAction::Idle
            },
            KeyCode::Left => {
                if self.focus == FocusPane::Main {
                    self.slide(false, key.modifiers.shift);
                } else if editable {
                    self.composer.cursor_left();
                }
                AppAction::Idle
            },
            KeyCode::Right => {
                if self.focus == FocusPane::Main {
                    self.slide(true, key.modifiers.shift);
                } else if editable {
                    self.composer.cursor_right();
                }
                AppAction::Idle
            },
            KeyCode::Home => {
                if self.focus == FocusPane::Main {
                    self.set_current_thread_horizontal_offset(0);
                }
                AppAction::Idle
            },
            KeyCode::Backspace => {
                if editable {
                    self.composer.backspace();
                }
                AppAction::Idle
            },
            KeyCode::Enter => match self.focus {
                FocusPane::Sidebar => self.open_selected_sidebar_thread(),
                FocusPane::Main => self.open_selected_main_link(),
                FocusPane::Input => {
                    if !editable {
                        return AppAction::Idle;
                    }
                    match self.composer.submit() {
                        Some(message) => self.start_local_send(message),
                        None => AppAction::Idle,
                    }
                },
            },
            KeyCode::Char(ch) => {
                if ch == ' ' {
                    if self.focus == FocusPane::Main {
                        self.toggle_selected_item();
                    } else if editable {
                        self.composer.insert_char(' ');
                    }
                    return AppAction::Idle;
                }
                if self.focus == FocusPane::Main && bare {
                    match Self::filter_for(key.code) {
                        Some(f) => {
                            self.set_main_filter(f);
                            return AppAction::Idle;
                        },
                        None => {},
                    }
                }
                if editable && !key.modifiers.control {
                    self.composer.insert_char(ch);
                }
                AppAction::Idle
            },
            _ => AppAction::Idle,
        }
    }

    /// Deals with a key at the time `now`, given what is in the clipboard.
    pub fn handle_key_event(
        &mut self,
        key: KeyEvent,
        read: Result<Option<String>, String>,
        now: u64,
    ) -> (r: AppAction)
        requires
            old(self).wf(),
        ensures
            final(self).wf(),
            (final(self)@, r@) == old(self)@.pressed(key, read, now),
    {
        if key.kind == KeyEventKind::Release {
            return AppAction::Idle;
        }
        self.expire_esc_arm(now);
        if key.code == KeyCode::Char('q') && key.modifiers.is_empty() {
            return AppAction::Quit;
        }
        if key.code == KeyCode::Esc {
            return self.handle_escape_press(now);
        }
        self.esc_armed_at = None;
        if key.is_control('b', 'B') {
            self.toggle_sidebar();
            return AppAction::Idle;
        }
        if self.mode == InteractionMode::Navigate {
            return self.handle_navigation_key(key);
        }
        self.handle_compose_key(key, read)
    }

    /// Whether a key asks for what is in the clipboard.
    pub fn wants_clipboard(&self, key: KeyEvent) -> (r: bool)
        requires
            self.threads@.len() > 0,
        ensures
            r == self@.asks_clipboard(key),
    {
        key.kind != KeyEventKind::Release && self.mode == InteractionMode::Compose
            && key.is_control('v', 'V') && self.can_type()
    }

    /// Deals with what the terminal reports at the time `now`. The clipboard is read only when a
    /// key asks for it.
    pub fn handle_event<C: ClipboardProvider>(
        &mut self,
        event: Event,
        clipboard: &mut C,
        now: u64,
    ) -> (r: AppAction)
        requires
            old(self).wf(),
        ensures
            final(self).wf(),
            match event {
                Event::Key(key) => if old(self)@.asks_clipboard(key) {
                    exists|read: Result<Option<String>, String>|
                        (final(self)@, r@) == #[trigger] old(self)@.pressed(key, read, now)
                            && C::gives(*old(clipboard), *final(clipboard), read)
                } else {
                    (final(self)@, r@) == old(self)@.pressed(key, Ok(None), now)
                },
                Event::Paste(text) => r is Idle && final(self)@ == (if old(self)@.editable() {
                    old(self)@.type_into(pasted_into(old(self)@.composer, text@))
                } else {
                    old(self)@
                }),
                Event::Other => r is Idle && final(self)@ == old(self)@,
            },
            !(event matches Event::Key(key) && old(self)@.asks_clipboard(key)) ==> *final(clipboard)
                == *old(clipboard),
    {
        match event {
            Event::Key(key) => {
                let read = if self.wants_clipboard(key) {
                    clipboard.read_text()
                } else {
                    Ok(None)
                };
                self.handle_key_event(key, read, now)
            },
            Event::Paste(text) => {
                if self.can_type() {
                    self.composer.insert_str(text.as_str());
                }
                AppAction::Idle
            },
            Event::Other => AppAction::Idle,
        }
    }
}

proof fn lemma_place_of(list: Seq<usize>, n: int)
    ensures
        0 <= crate::chat::thread::place_of(list, n) <= list.len(),
        crate::chat::thread::place_of(list, n) < list.len()
            ==> list[crate::chat::thread::place_of(list, n)] == n,
        forall|j: int|
            0 <= j < crate::chat::thread::place_of(list, n) ==> (#[trigger] list[j]) != n,
    decreases list.len(),
{
    if list.len() > 0 && list[0] != n {
        lemma_place_of(list.drop_first(), n);
        assert forall|j: int| 0 <= j < crate::chat::thread::place_of(list, n) implies (
        #[trigger] list[j]) != n by {
            if j > 0 {
                assert(list.drop_first()[j - 1] == list[j]);
            }
        }
    }
}

proof fn lemma_place(list: Seq<usize>, n: int)
    requires
        list.len() > 0,
    ensures
        list[selected_place(list, n)] == n ==> list.contains(n as usize),
        list.contains(n as usize) && 0 <= n <= usize::MAX ==> list[selected_place(list, n)] == n,
        0 <= selected_place(list, n) < list.len(),
{
    lemma_place_of(list, n);
    lemma_last_below(list, n);
    if list[selected_place(list, n)] == n {
        assert(list.contains(list[selected_place(list, n)]));
    }
    if list.contains(n as usize) && 0 <= n <= usize::MAX {
        let k = choose|k: int| 0 <= k < list.len() && list[k] == n as usize;
        assert(list[k] == n);
    }
}

proof fn lemma_last_below(list: Seq<usize>, n: int)
    requires
        list.len() > 0,
    ensures
        0 <= crate::chat::thread::last_below(list, n) < list.len(),
    decreases list.len(),
{
    if list.len() > 1 && list.last() >= n {
        lemma_last_below(list.drop_last(), n);
    }
}

// ---- laws --------------------------------------------------------------------------------

/// Going on to the next pane and back again, or the other way round, ends where it began.
pub proof fn focus_goes_back_and_forth(st: AppView)
    requires
        st.focus is Sidebar ==> st.sidebar_shown(),
    ensures
        st.focus_moved(true).focus_moved(false) == st,
        st.focus_moved(false).focus_moved(true) == st,
        st.focus_moved(true).focus is Sidebar ==> st.sidebar_shown(),
        st.focus_moved(false).focus is Sidebar ==> st.sidebar_shown(),
{
}

/// Two quick presses of Escape lead from writing to moving about, and one more leads back.
pub proof fn escape_switches_modes(
    st: AppView,
    key: KeyEvent,
    read: Result<Option<String>, String>,
    first: u64,
    second: u64,
    third: u64,
)
    requires
        st.mode is Compose,
        st.esc_armed_at is None,
        key.code is Esc,
        !(key.kind is Release),
        second - first <= ESC_NAVIGATION_WINDOW,
    ensures
        ({
            let once = st.pressed(key, read, first).0;
            let twice = once.pressed(key, read, second).0;
            let thrice = twice.pressed(key, read, third).0;
            &&& once.mode is Compose && once.focus == st.focus
            &&& twice.mode is Navigate && twice.focus is Main
            &&& thrice.mode is Compose && thrice.focus is Input
        }),
{
}

/// Nothing that is typed changes the input while a thread that can only be read is on screen, and
/// nothing is sent.
pub proof fn read_only_threads_take_no_text(
    st: AppView,
    key: KeyEvent,
    read: Result<Option<String>, String>,
    now: u64,
)
    requires
        st.threads.len() > 0,
        st.current().read_only,
    ensures
        st.pressed(key, read, now).0.composer == st.composer,
        !(st.pressed(key, read, now).1 is SubmitSystemTurn),
        !(st.pressed(key, read, now).1 is SubmitSubagentTurn),
{
    let calm = AppView { esc_armed_at: None, ..st.expired(now) };
    assert(calm.current() == st.current());
    lemma_navigating_writes_nothing(calm, key);
    lemma_read_only_input(calm, key, read);
}

proof fn lemma_following_writes_nothing(st: AppView)
    ensures
        st.followed().0.composer == st.composer,
        !(st.followed().1 is SubmitSystemTurn),
        !(st.followed().1 is SubmitSubagentTurn),
        st.opened_from_sidebar().0.composer == st.composer,
        !(st.opened_from_sidebar().1 is SubmitSystemTurn),
        !(st.opened_from_sidebar().1 is SubmitSubagentTurn),
        st.stepped(true).composer == st.composer,
        st.stepped(false).composer == st.composer,
        st.toggled().composer == st.composer,
{
}

proof fn lemma_navigating_writes_nothing(st: AppView, key: KeyEvent)
    ensures
        st.navigated(key).0.composer == st.composer,
        !(st.navigated(key).1 is SubmitSystemTurn),
        !(st.navigated(key).1 is SubmitSubagentTurn),
{
    lemma_following_writes_nothing(st);
}

proof fn lemma_read_only_input(
    st: AppView,
    key: KeyEvent,
    read: Result<Option<String>, String>,
)
    requires
        st.current().read_only,
    ensures
        st.composed(key, read).0.composer == st.composer,
        !(st.composed(key, read).1 is SubmitSystemTurn),
        !(st.composed(key, read).1 is SubmitSubagentTurn),
{
    lemma_following_writes_nothing(st);
    assert(!st.editable());
}

/// The thread that is shown is the active one, or the last where there is no such thread.
pub proof fn the_active_thread_is_shown(st: AppView)
    requires
        st.threads.len() > 0,
    ensures
        st.active_thread < st.threads.len() ==> st.current() == st.threads[st.active_thread as int],
        st.active_thread >= st.threads.len() ==> st.current() == st.threads.last(),
        st.selected.dom().contains(st.current().id) ==> st.selected_item()
            == st.selected[st.current().id],
        !st.selected.dom().contains(st.current().id) ==> st.selected_item() == 0,
        st.sidebar_shown() <==> !st.sidebar_collapsed && !st.sidebar_auto_collapsed,
        st.editable() <==> st.focus is Input && !st.current().read_only,
{
}

/// A key that is let go does nothing, and `q` alone leaves the chat from anywhere.
pub proof fn keys_that_do_little(
    st: AppView,
    key: KeyEvent,
    read: Result<Option<String>, String>,
    now: u64,
)
    ensures
        key.kind is Release ==> st.pressed(key, read, now) == (st, ActionView::Idle),
        !(key.kind is Release) && key.code == KeyCode::Char('q') && !key.modifiers.shift
            && !key.modifiers.control && !key.modifiers.other ==> st.pressed(key, read, now).1 is Quit
            && st.pressed(key, read, now).0.threads == st.threads && st.pressed(
            key,
            read,
            now,
        ).0.composer == st.composer,
        !(key.kind is Release) && st.pressed(key, read, now).1 is Quit ==> key.code == KeyCode::Char(
            'q',
        ) && !key.modifiers.shift && !key.modifiers.control && !key.modifiers.other,
{
}

/// A letter that is typed into the input stands where the cursor was; nothing else changes but what
/// is remembered of Escape.
pub proof fn letters_go_into_the_input(
    st: AppView,
    key: KeyEvent,
    read: Result<Option<String>, String>,
    now: u64,
    ch: char,
)
    requires
        st.mode is Compose,
        st.focus is Input,
        !st.current().read_only,
        !(key.kind is Release),
        key.code == KeyCode::Char(ch),
        !key.modifiers.control,
        ch != 'q',
    ensures
        ({
            let (after, action) = st.pressed(key, read, now);
            let text = st.composer.text;
            let at = st.composer.cursor;
            &&& action is Idle
            &&& after.composer.text == text.take(at) + seq![ch] + text.skip(at)
            &&& after.composer.cursor == at + 1
            &&& after.threads == st.threads
            &&& after.status == st.status
            &&& after.selected == st.selected
            &&& after.focus == st.focus
            &&& after.mode == st.mode
        }),
{
}

/// A message is sent to the thread that is shown: by the orchestrator's own way for its thread, by
/// name for any other. It stands last in the thread, with a note below it that an answer is awaited;
/// that note is selected.
pub proof fn messages_go_to_the_thread_that_is_shown(st: AppView, text: Seq<char>)
    requires
        st.threads.len() > 0,
        forall|i: int, j: int|
            0 <= i < j < st.threads.len() ==> (#[trigger] st.threads[i]).id != (
            #[trigger] st.threads[j]).id,
        st.current().items.len() + 2 <= usize::MAX,
    ensures
        ({
            let (after, action) = st.sent(text);
            let t = st.current();
            let i = st.current_index();
            let now = after.threads[i];
            &&& t.id == "system0"@ ==> action == ActionView::SubmitSystemTurn(text)
            &&& t.id != "system0"@ ==> action == (ActionView::SubmitSubagentTurn {
                thread_id: t.id,
                message: text,
            })
            &&& now.items.len() == t.items.len() + 2
            &&& now.items.take(t.items.len() as int) == t.items
            &&& now.items[t.items.len() as int] matches ItemView::Text { role, text: said, .. } && role
                is User && said == text
            &&& now.items.last() matches ItemView::Text { role, text: said, .. } && role is Assistant
                && said == "Thinking..."@
            &&& now.id == t.id
            &&& after.threads.len() == st.threads.len()
            &&& after.pending_thread == Some(t.id)
            &&& after.placeholders[t.id] == t.items.len() + 1
            &&& after.selected[t.id] == t.items.len() + 1
            &&& after.status == Some("Sending..."@)
            &&& forall|j: int|
                0 <= j < st.threads.len() && j != i ==> (#[trigger] after.threads[j])
                    == st.threads[j]
        }),
{
    let t = st.current();
    let i = thread_index(st.threads, t.id);
    lemma_thread_index(st.threads, t.id);
    if i < st.current_index() {
        assert(st.threads[i].id != st.threads[st.current_index()].id);
    }
    assert(st.threads[i] == t);
    let items = t.items.push(message(MessageRoleTag::User, text)).push(
        message(MessageRoleTag::Assistant, "Thinking..."@),
    );
    assert(items.take(t.items.len() as int) =~= t.items);
}

/// Enter in the input sends what was typed and empties the input; blank input is not sent.
pub proof fn enter_sends_what_was_typed(
    st: AppView,
    key: KeyEvent,
    read: Result<Option<String>, String>,
    now: u64,
)
    requires
        st.threads.len() > 0,
        st.mode is Compose,
        st.focus is Input,
        !st.current().read_only,
        !(key.kind is Release),
        key.code is Enter,
        !key.modifiers.shift,
    ensures
        ({
            let (after, action) = st.pressed(key, read, now);
            let text = st.composer.text;
            &&& crate::text::trimmed(text).len() == 0 ==> action is Idle && after.composer
                == st.composer && after.threads == st.threads
            &&& crate::text::trimmed(text).len() > 0 && st.current().id == "system0"@ ==> action
                == ActionView::SubmitSystemTurn(text)
            &&& crate::text::trimmed(text).len() > 0 && st.current().id != "system0"@ ==> action == (
            ActionView::SubmitSubagentTurn { thread_id: st.current().id, message: text })
            &&& crate::text::trimmed(text).len() > 0 ==> after.composer.text.len() == 0
                && after.composer.cursor == 0
        }),
{
    crate::text::lemma_blank(st.composer.text);
}

/// A message is sent only by Enter in the input.
pub proof fn only_enter_sends(
    st: AppView,
    key: KeyEvent,
    read: Result<Option<String>, String>,
    now: u64,
)
    ensures
        ({
            let action = st.pressed(key, read, now).1;
            action is SubmitSystemTurn || action is SubmitSubagentTurn ==> key.code is Enter
                && st.focus is Input && st.mode is Compose && !st.current().read_only
        }),
{
}

/// A step goes to the next card that is shown, or to the one before, and no further than the last or
/// the first.
pub proof fn steps_go_from_card_to_card(st: AppView, k: int)
    requires
        0 <= k < st.visible().len(),
        st.selected_item() == st.visible()[k],
        forall|i: int, j: int| 0 <= i < j < st.visible().len() ==> st.visible()[i] < st.visible()[j],
    ensures
        k + 1 < st.visible().len() ==> st.stepped(true).selected[st.current().id]
            == st.visible()[k + 1],
        k + 1 == st.visible().len() ==> st.stepped(true).selected[st.current().id] == st.visible()[k],
        k > 0 ==> st.stepped(false).selected[st.current().id] == st.visible()[k - 1],
        k == 0 ==> st.stepped(false).selected[st.current().id] == st.visible()[0],
        st.stepped(true).threads == st.threads,
        st.stepped(true).composer == st.composer,
        st.stepped(false).threads == st.threads,
        st.stepped(false).composer == st.composer,
{
    crate::chat::thread::hidden_selections_fall_back(st.visible(), st.selected_item(), k);
}

/// A card is brought into view by as little as needed: not at all where it is, to its first row where
/// it stands above, and to its last where it stands below.
pub proof fn cards_come_into_view(offset: int, range: (int, int), rows: int)
    requires
        rows >= 1,
    ensures
        range.0 < offset ==> scrolled_to(offset, range, rows) == range.0,
        offset <= range.0 && range.1 < offset + rows ==> scrolled_to(offset, range, rows) == offset,
        offset <= range.0 && range.1 >= offset + rows ==> scrolled_to(offset, range, rows) + rows
            == range.1 + 1,
{
}

/// The rows of a thread begin where its selected card comes into view; other threads stay.
pub proof fn scrolling_is_for_one_thread(
    st: AppView,
    id: Seq<char>,
    ranges: Seq<(int, int)>,
    rows: int,
    place: int,
    other: Seq<char>,
)
    requires
        0 <= place,
    ensures
        ({
            let after = st.scroll_to(id, ranges, rows, place);
            &&& ranges.len() == 0 ==> after.vertical[id] == 0
            &&& place < ranges.len() ==> after.vertical[id] == scrolled_to(
                number_for(st.vertical, id),
                ranges[place],
                rows,
            ) as usize
            &&& other != id ==> (after.vertical.dom().contains(other) <==> st.vertical.dom().contains(
                other,
            ))
            &&& other != id && st.vertical.dom().contains(other) ==> after.vertical[other]
                == st.vertical[other]
            &&& after.threads == st.threads
            &&& after.selected == st.selected
        }),
{
}

/// Space opens or closes the selected card of the thread that is shown, and no other.
pub proof fn space_folds_the_selected_card(st: AppView)
    requires
        st.threads.len() > 0,
        forall|i: int, j: int|
            0 <= i < j < st.threads.len() ==> (#[trigger] st.threads[i]).id != (
            #[trigger] st.threads[j]).id,
        st.visible().contains(st.selected_item() as usize),
        st.selected_item() < st.current().items.len(),
    ensures
        ({
            let after = st.toggled();
            let i = st.current_index();
            let k = st.selected_item();
            let items = st.current().items;
            &&& after.threads.len() == st.threads.len()
            &&& forall|j: int|
                0 <= j < st.threads.len() && j != i ==> (#[trigger] after.threads[j])
                    == st.threads[j]
            &&& after.threads[i].items == items.update(k, flipped(items[k]))
            &&& after.threads[i].id == st.threads[i].id
            &&& after.selected == st.selected
            &&& after.composer == st.composer
        }),
{
    let t = st.current();
    let i = thread_index(st.threads, t.id);
    lemma_thread_index(st.threads, t.id);
    if i < st.current_index() {
        assert(st.threads[i].id != st.threads[st.current_index()].id);
    }
    let k = st.selected_item();
    if !foldable(t.items[k]) {
        crate::chat::timeline::flipping_the_unfoldable(t.items[k]);
        assert(t.items.update(k, flipped(t.items[k])) =~= t.items);
    }
}

/// A filter is put on for all threads, with a word on it, and then what is selected is shown.
pub proof fn filters_are_put_on(st: AppView, filter: MainFilter)
    requires
        st.threads.len() > 0,
    ensures
        st.filtered(filter).main_filter == filter,
        st.filtered(filter).status == Some("Main filter: "@ + filter.name()),
        st.filtered(filter).threads == st.threads,
        st.filtered(filter).composer == st.composer,
        ({
            let shown = visible_in(st.current().items, filter);
            shown.contains(st.selected_item() as usize) ==> st.filtered(filter).selected == st.selected
        }),
{
}

/// A hidden selection moves to a card that is shown.
pub proof fn selections_stay_in_view(st: AppView)
    requires
        st.visible().len() > 0,
    ensures
        ({
            let after = st.aligned();
            &&& st.visible().contains(st.selected_item() as usize) ==> after == st
            &&& !st.visible().contains(st.selected_item() as usize) ==> after.selected
                == st.selected.insert(
                st.current().id,
                st.visible()[selected_place(st.visible(), st.selected_item())],
            ) && after.threads == st.threads
        }),
{
}

/// The thread that is marked in the sidebar is opened, and asked back to life where it is an agent's
/// that is over.
pub proof fn the_marked_thread_is_opened(st: AppView)
    requires
        st.threads.len() > 0,
        st.sidebar_selected < st.threads.len(),
    ensures
        ({
            let (after, action) = st.opened_from_sidebar();
            let t = st.threads[st.sidebar_selected as int];
            &&& after.active_thread == st.sidebar_selected
            &&& after.focus is Main
            &&& after.threads == st.threads
            &&& action == (ActionView::OpenThread {
                thread_id: t.id,
                resurrect: t.read_only && t.id != "system0"@,
            })
        }),
{
}

/// Enter on a card that leads to a thread opens that thread where it is listed, and says so where it
/// is not; on any other card it does nothing.
pub proof fn links_lead_to_their_threads(st: AppView, i: int)
    requires
        st.threads.len() > 0,
        st.threads.len() <= usize::MAX,
        st.visible().contains(st.selected_item() as usize),
        st.selected_item() < st.current().items.len(),
        0 <= i < st.threads.len(),
        forall|a: int, b: int|
            0 <= a < b < st.threads.len() ==> (#[trigger] st.threads[a]).id != (
            #[trigger] st.threads[b]).id,
    ensures
        ({
            let (after, action) = st.followed();
            let to = link(st.current().items[st.selected_item()]);
            &&& to is None ==> action is Idle && after == st
            &&& to == Some(st.threads[i].id) ==> after.active_thread == i && after.sidebar_selected
                == i && after.focus is Main && action == (ActionView::OpenThread {
                thread_id: st.threads[i].id,
                resurrect: st.threads[i].read_only,
            }) && after.status == Some("Opening thread "@ + clipped(st.threads[i].id, 8))
            &&& to is Some && (forall|j: int|
                0 <= j < st.threads.len() ==> (#[trigger] st.threads[j]).id != to->0) ==> action
                is Idle && after.active_thread == st.active_thread && after.status == Some(
                "Thread "@ + clipped(to->0, 8) + " not found in sidebar"@,
            )
        }),
{
    let to = link(st.current().items[st.selected_item()]);
    if to is Some {
        lemma_thread_index(st.threads, to->0);
        let k = thread_index(st.threads, to->0);
        if to == Some(st.threads[i].id) {
            if k < i {
                assert(st.threads[k].id != st.threads[i].id);
            }
            if i < k {
                assert(st.threads[i].id != to->0);
            }
        }
    }
}

/// The sidebar is shown and hidden in turn; what hides it takes the focus from it.
pub proof fn the_sidebar_comes_and_goes(st: AppView)
    requires
        !st.sidebar_auto_collapsed,
    ensures
        st.sidebar_toggled().sidebar_shown() == !st.sidebar_shown(),
        st.sidebar_shown() && st.focus is Sidebar ==> st.sidebar_toggled().focus is Main,
        !(st.focus is Sidebar) ==> st.sidebar_toggled().focus == st.focus,
        st.sidebar_toggled().sidebar_collapsed == !st.sidebar_collapsed,
        st.sidebar_shown() ==> st.sidebar_toggled().status == Some("Thread sidebar hidden"@),
        !st.sidebar_shown() ==> st.sidebar_toggled().status == Some("Thread sidebar shown"@),
        st.sidebar_toggled().threads == st.threads,
{
}

/// The focus goes round from the sidebar by the conversation to the input, and past a sidebar that is
/// hidden.
pub proof fn the_focus_goes_round(st: AppView)
    ensures
        st.focus is Sidebar ==> st.focus_moved(true).focus is Main,
        st.focus is Main ==> st.focus_moved(true).focus is Input,
        st.focus is Input && st.sidebar_shown() ==> st.focus_moved(true).focus is Sidebar,
        st.focus is Input && !st.sidebar_shown() ==> st.focus_moved(true).focus is Main,
        st.focus is Input ==> st.focus_moved(false).focus is Main,
        st.focus is Main && st.sidebar_shown() ==> st.focus_moved(false).focus is Sidebar,
        st.focus is Main && !st.sidebar_shown() ==> st.focus_moved(false).focus is Input,
        st.focus is Sidebar ==> st.focus_moved(false).focus is Input,
{
}

/// A press of Escape is remembered for 850 milliseconds, and for no longer.
pub proof fn escape_is_remembered_for_a_while(st: AppView, at: u64, now: u64)
    requires
        st.esc_armed_at == Some(at),
        at <= now,
    ensures
        st.armed(now) <==> now - at <= 850 * 1_000_000,
        now - at > 850 * 1_000_000 ==> st.expired(now).esc_armed_at is None,
        now - at <= 850 * 1_000_000 ==> st.expired(now).esc_armed_at == Some(at),
        st.expired(now).threads == st.threads,
        st.expired(now).mode == st.mode,
        st.expired(now).focus == st.focus,
{
}

/// What Escape does: the first press is remembered, a second in time goes to the conversation, and
/// from there one goes back to the input. Each is said.
pub proof fn escape_says_what_it_does(st: AppView, now: u64)
    ensures
        st.mode is Navigate ==> st.escaped(now).mode is Compose && st.escaped(now).focus is Input
            && st.escaped(now).esc_armed_at is None && st.escaped(now).status == Some("Input mode"@),
        st.mode is Compose && st.esc_armed_at is None ==> st.escaped(now).mode is Compose && st.escaped(
            now,
        ).esc_armed_at == Some(now) && st.escaped(now).focus == st.focus && st.escaped(now).status
            == Some("Press Esc again quickly to enter navigation mode"@),
        st.mode is Compose && st.armed(now) ==> st.escaped(now).mode is Navigate && st.escaped(
            now,
        ).focus is Main && st.escaped(now).esc_armed_at is None,
        st.escaped(now).threads == st.threads,
        st.escaped(now).composer == st.composer,
{
}

/// The rows move to the side by one column or by eight, and not past the start.
pub proof fn rows_move_to_the_side(st: AppView, far: bool)
    requires
        st.horizontal_offset() < usize::MAX - 8,
    ensures
        ({
            let step: int = if far {
                8
            } else {
                1
            };
            let at = st.horizontal_offset();
            let id = st.current().id;
            &&& st.slid(true, far).horizontal[id] == at + step
            &&& at >= step ==> st.slid(false, far).horizontal[id] == at - step
            &&& at < step ==> st.slid(false, far).horizontal[id] == 0
            &&& st.slid(true, far).vertical == st.vertical
            &&& st.slid(true, far).threads == st.threads
            &&& st.slid(false, far).threads == st.threads
        }),
{
}

/// The keys from one to four choose the filters.
pub proof fn digits_choose_filters(c: char)
    ensures
        AppView::filter_key(KeyCode::Char('1')) == Some(MainFilter::All),
        AppView::filter_key(KeyCode::Char('2')) == Some(MainFilter::DelegatesOnly),
        AppView::filter_key(KeyCode::Char('3')) == Some(MainFilter::FailuresOnly),
        AppView::filter_key(KeyCode::Char('4')) == Some(MainFilter::SystemToolsOnly),
        c != '1' && c != '2' && c != '3' && c != '4' ==> AppView::filter_key(KeyCode::Char(c)) is None,
{
}

/// What each key does while one moves about in the conversation.
pub proof fn keys_move_about(st: AppView, key: KeyEvent)
    ensures
        ({
            let (after, action) = st.navigated(key);
            let bare = !key.modifiers.shift && !key.modifiers.control && !key.modifiers.other;
            &&& bare && (key.code is Up || key.code == KeyCode::Char('k')) ==> after == st.stepped(false)
            &&& bare && (key.code is Down || key.code == KeyCode::Char('j')) ==> after == st.stepped(true)
            &&& key.code is Left ==> after == st.slid(false, key.modifiers.shift)
            &&& key.code is Right ==> after == st.slid(true, key.modifiers.shift)
            &&& key.code is Home ==> after.horizontal[st.current().id] == 0
            &&& key.code == KeyCode::Char(' ') ==> after == st.toggled()
            &&& key.code == KeyCode::Char('i') || key.code == KeyCode::Char('I') ==> after.mode is Compose
                && after.focus is Input && after.status == Some("Input mode"@)
            &&& bare && key.code == KeyCode::Char('2') ==> after == st.filtered(MainFilter::DelegatesOnly)
            &&& key.code is Enter ==> (after, action) == st.followed()
            &&& !(key.code is Enter) ==> action is Idle
            &&& after.composer == st.composer
        }),
{
}

/// What each key does where one can write: the arrows and Backspace go to the input, and to the
/// conversation or the sidebar where these have the focus.
pub proof fn keys_write_and_edit(
    st: AppView,
    key: KeyEvent,
    read: Result<Option<String>, String>,
)
    requires
        !key.modifiers.shift,
        !key.modifiers.control,
        !key.modifiers.other,
    ensures
        ({
            let (after, action) = st.composed(key, read);
            let edits = st.focus is Input && !st.current().read_only;
            &&& key.code is Tab ==> after == st.focus_moved(true)
            &&& key.code is BackTab ==> after == st.focus_moved(false)
            &&& key.code is Backspace && edits ==> after.composer == st.composer.erased()
            &&& key.code is Backspace && !edits ==> after == st
            &&& key.code is Up && edits ==> after.composer == st.composer.raised()
            &&& key.code is Down && edits ==> after.composer == st.composer.lowered()
            &&& key.code is Left && edits ==> after.composer == st.composer.left()
            &&& key.code is Right && edits ==> after.composer == st.composer.right()
            &&& key.code is Up && st.focus is Main ==> after == st.stepped(false)
            &&& key.code is Down && st.focus is Main ==> after == st.stepped(true)
            &&& key.code is Up && st.focus is Sidebar && st.sidebar_selected > 0
                ==> after.sidebar_selected == st.sidebar_selected - 1
            &&& key.code is Up && st.focus is Sidebar && st.sidebar_selected == 0
                ==> after.sidebar_selected == 0
            &&& key.code is Down && st.focus is Sidebar && st.sidebar_selected + 1 < st.threads.len()
                <= usize::MAX ==> after.sidebar_selected == st.sidebar_selected + 1
            &&& key.code is Enter && st.focus is Sidebar ==> (after, action)
                == st.opened_from_sidebar()
            &&& key.code is Enter && st.focus is Main ==> (after, action) == st.followed()
            &&& key.code == KeyCode::Char(' ') && st.focus is Main ==> after == st.toggled()
            &&& key.code == KeyCode::Char('3') && st.focus is Main ==> after == st.filtered(
                MainFilter::FailuresOnly,
            )
        }),
{
}

/// What comes from the clipboard is typed in with its line ends made plain; where nothing comes, that
/// is said.
pub proof fn the_clipboard_is_typed_in(st: AppView, text: String, err: String)
    ensures
        st.pasted(Ok(Some(text))).composer == pasted_into(st.composer, text@),
        st.pasted(Ok(Some(text))).threads == st.threads,
        st.pasted(Ok(None)).status == Some("Clipboard unavailable"@),
        st.pasted(Ok(None)).composer == st.composer,
        st.pasted(Err(err)).status == Some("Clipboard read failed: "@ + err@),
        st.pasted(Err(err)).composer == st.composer,
        crate::chat::composer::normalized(text@).len() > 0 ==> pasted_into(st.composer, text@)
            == st.composer.inserted(crate::chat::composer::normalized(text@)),
        crate::chat::composer::normalized(text@).len() == 0 ==> pasted_into(st.composer, text@)
            == st.composer,
{
}

/// Small changes change one thing and leave all others: what is said, which card is selected, how far
/// the rows are to the side, what is typed, and which thread is shown.
pub proof fn small_changes_change_one_thing(
    st: AppView,
    text: Seq<char>,
    n: usize,
    composer: ComposerView,
    i: int,
)
    requires
        0 <= i < st.threads.len() <= usize::MAX,
    ensures
        st.say(text) == (AppView { status: Some(text), ..st }),
        st.select(n) == (AppView { selected: st.selected.insert(st.current().id, n), ..st }),
        st.scroll_right_to(n) == (AppView {
            horizontal: st.horizontal.insert(st.current().id, n),
            ..st
        }),
        st.type_into(composer) == (AppView { composer, ..st }),
        st.switched(i) == (AppView {
            active_thread: i as usize,
            sidebar_selected: i as usize,
            focus: FocusPane::Main,
            ..st
        }),
        st.horizontal.dom().contains(st.current().id) ==> st.horizontal_offset()
            == st.horizontal[st.current().id],
        st.visible() == visible_in(st.current().items, st.main_filter),
{
}

/// The keys that are held with Control: a new line, the clipboard and the sidebar. The clipboard is
/// read only where its text can go.
pub proof fn keys_with_control(
    st: AppView,
    key: KeyEvent,
    read: Result<Option<String>, String>,
    now: u64,
)
    requires
        !(key.kind is Release),
        st.mode is Compose,
        key.modifiers.control,
        st.esc_armed_at is None,
    ensures
        ({
            let (after, action) = st.pressed(key, read, now);
            let edits = st.focus is Input && !st.current().read_only;
            &&& key.code == KeyCode::Char('j') && edits ==> after.composer == st.composer.inserted(
                seq!['\n'],
            )
            &&& key.code == KeyCode::Char('n') && edits ==> after.composer == st.composer.inserted(
                seq!['\n'],
            )
            &&& key.code == KeyCode::Char('v') && edits ==> after == st.pasted(read)
            &&& key.code == KeyCode::Char('b') ==> after == st.sidebar_toggled()
            &&& !edits && key.code == KeyCode::Char('v') ==> after == st
            &&& st.asks_clipboard(key) <==> edits && (key.code == KeyCode::Char('v') || key.code
                == KeyCode::Char('V'))
            &&& !(key.code is Enter) ==> action is Idle
        }),
{
}

/// The selected card of the thread that is shown is brought into view, as it is drawn.
pub proof fn the_selected_card_comes_into_view(st: AppView)
    requires
        st.viewport_rows >= 1,
        0 <= st.selected_item() < st.current().items.len(),
    ensures
        ({
            let d = drawn(st.current(), st.selected_item(), 1, st.main_filter, false);
            st.in_view() == st.scroll_to(st.current().id, d.ranges, st.viewport_rows as int, d.place)
        }),
{
}

} // verus!

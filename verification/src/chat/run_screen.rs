//! How the plain chat is drawn, and what holds of it whatever is typed.

use vstd::prelude::*;
use crate::chat::app::FocusPane;
use crate::chat::composer::{cursor_at, ComposerView, DEFAULT_MAX_VISIBLE_LINES};
use crate::chat::keys::KeyEvent;
use crate::chat::paint::{
    ink, line1, line2, line3, line_views, piece, plain, put_line, raw, row, span, widen, Color,
    Line, LineView, Style,
};
use crate::chat::run_app::{
    backwards, keep_all, runs_synced, runs_without, RunThreadModel, RunsApp, RunsView,
};
use crate::chat::run_cards::{
    card_rows, card_style, run_item_views, state_ink, state_style, ListItem,
};
use crate::chat::screen::{cursor_place, input_lines, lines_for};
use crate::chat::thread::SYSTEM_THREAD_ID;
use crate::rpc::DelegatedRun;
use crate::text::{cat, cat3, same};

verus! {

/// How the list of threads and the conversation share the screen.
#[derive(Debug, Clone, Copy, PartialEq, Eq, Structural)]
pub enum Split {
    /// The list stands above, in so many rows.
    Above(u16),
    /// The list stands at the left, in so many columns.
    Beside(u16),
}

/// A number no smaller than one and no larger than another.
pub open spec fn clamped(n: int, low: int, high: int) -> int {
    if n < low {
        low
    } else if n > high {
        high
    } else {
        n
    }
}

/// The rows of the input with its borders: at least three, and six fewer than there are.
pub open spec fn run_input_rows(lines: int, height: int) -> int {
    clamped(
        lines + 2,
        3,
        if height < 9 {
            3
        } else {
            height - 6
        },
    )
}

/// How the list of threads and the conversation share their part of the screen.
pub fn split_body(width: u16, height: u16) -> (r: Split)
    ensures
        r == (if width < 84 {
            Split::Above(clamped(height as int / 3, 5, 10) as u16)
        } else {
            Split::Beside(clamped(width * 3 / 10, 18, 38) as u16)
        }),
{
    if width < 84 {
        let third: u16 = height / 3;
        let rows: u16 = if third < 5 {
            5
        } else if third > 10 {
            10
        } else {
            third
        };
        Split::Above(rows)
    } else {
        let share: u32 = (width as u32) * 3 / 10;
        let columns: u16 = if share > 38 {
            38
        } else {
            share as u16
        };
        Split::Beside(columns)
    }
}

/// The row of a thread in the list.
pub open spec fn run_sidebar_row(t: RunThreadModel) -> LineView {
    if t.id == SYSTEM_THREAD_ID@ {
        row(
            seq![
                piece("System0"@, ink(Color::Cyan)),
                piece(" [active]"@, ink(Color::DarkGray)),
            ],
        )
    } else {
        let state = match t.state {
            Some(s) => s,
            None => "unknown"@,
        };
        row(
            seq![
                piece(t.title, plain()),
                piece(" ["@, plain()),
                piece(state, state_ink(state)),
                piece("]"@, plain()),
            ],
        )
    }
}

/// The style of what is selected in a list: bold where keys go to the list.
pub open spec fn highlight(focused: bool) -> Style {
    Style { fg: Some(Color::White), bg: Some(Color::DarkGray), bold: focused }
}

/// A card as it is drawn.
pub open spec fn drawn_as(item: ListItem, rows: Seq<LineView>, style: Style) -> bool {
    line_views(item.lines@) == rows && item.style == style
}

impl RunsApp {
    /// Fits the input to a terminal of some height. Gives the rows that it takes, with its borders.
    pub fn fit_input(&mut self, height: u16) -> (r: u16)
        requires
            old(self).wf(),
        ensures
            final(self).wf(),
            final(self)@ == (RunsView {
                composer: ComposerView {
                    visible: lines_for(height as int),
                    ..old(self)@.composer
                }.shown(),
                ..old(self)@
            }),
            r == run_input_rows(input_lines(final(self)@.composer), height as int),
    {
        let ghost k = self.composer.cursor();
        self.composer.max_visible_lines = if height < 22 {
            4
        } else if height < 34 {
            6
        } else {
            DEFAULT_MAX_VISIBLE_LINES
        };
        assert(cursor_at(self.composer.buffer@, k, self.composer.cursor_byte as int));
        self.composer.ensure_cursor_visible();
        let lines = self.composer.input_height();
        let most: u16 = if height < 9 {
            3
        } else {
            height - 6
        };
        let wanted: u16 = (lines as u16) + 2;
        if wanted < 3 {
            3
        } else if wanted > most {
            most
        } else {
            wanted
        }
    }

    /// The rows of the list of threads.
    pub fn sidebar_lines(&self) -> (r: Vec<Line>)
        ensures
            line_views(r@) == self@.threads.map_values(|t: RunThreadModel| run_sidebar_row(t)),
    {
        let ghost want = self@.threads.map_values(|t: RunThreadModel| run_sidebar_row(t));
        let mut out: Vec<Line> = Vec::new();
        let mut i: usize = 0;
        assert(line_views(out@) =~= want.take(0));
        while i < self.threads.len()
            invariant
                i <= self.threads@.len(),
                want == self@.threads.map_values(|t: RunThreadModel| run_sidebar_row(t)),
                line_views(out@) == want.take(i as int),
            decreases self.threads@.len() - i,
        {
            let t = &self.threads[i];
            let line = if same(t.id.as_str(), SYSTEM_THREAD_ID) {
                line2(span("System0", ink(Color::Cyan)), span(" [active]", ink(Color::DarkGray)))
            } else {
                let state = match &t.state {
                    Some(s) => s.clone(),
                    None => "unknown".to_owned(),
                };
                let three = line3(
                    raw(t.title.as_str()),
                    raw(" ["),
                    span(state.as_str(), state_style(state.as_str())),
                );
                let four = widen(three, raw("]"));
                assert(four@.spans =~= run_sidebar_row(t@).spans);
                four
            };
            let ghost before = line_views(out@);
            put_line(&mut out, line);
            proof {
                assert(self@.threads[i as int] == t@);
                assert(line@ == run_sidebar_row(t@));
                assert(want.take(i + 1) =~= before.push(want[i as int]));
            }
            i = i + 1;
        }
        assert(want.take(i as int) =~= want);
        out
    }

    /// The position in the list of the thread that is selected there.
    pub fn sidebar_position(&self) -> (r: usize)
        ensures
            r == (if self@.sidebar_selected < self@.threads.len() {
                self@.sidebar_selected as int
            } else {
                crate::chat::app::last_of(self@.threads.len())
            }),
    {
        let last = self.threads.len().saturating_sub(1);
        if self.sidebar_selected < last {
            self.sidebar_selected
        } else {
            last
        }
    }

    /// The style of what is selected in the list of threads or in the conversation.
    pub fn highlight_style(&self, pane: FocusPane) -> (r: Style)
        ensures
            r == highlight(self@.focus == pane),
    {
        Style {
            fg: Some(Color::White),
            bg: Some(Color::DarkGray),
            bold: self.focus == pane,
        }
    }

    /// The title of the conversation.
    pub fn thread_title(&self) -> (r: String)
        requires
            self.wf(),
        ensures
            r@ == "Conversation: "@ + self@.current().title + (if self@.current().read_only {
                " (read-only)"@
            } else {
                Seq::empty()
            }),
    {
        let t = self.current_thread();
        if t.read_only {
            cat3("Conversation: ", t.title.as_str(), " (read-only)")
        } else {
            let r = cat("Conversation: ", t.title.as_str());
            assert(r@ + Seq::<char>::empty() =~= r@);
            r
        }
    }

    /// The cards of the conversation as they are drawn.
    pub fn thread_cards(&self) -> (r: Vec<ListItem>)
        requires
            self.wf(),
        ensures
            ({
                let items = self@.current().items;
                if items.len() == 0 {
                    &&& r@.len() == 1
                    &&& drawn_as(
                        r@[0],
                        seq![row(seq![piece("No messages yet"@, ink(Color::DarkGray))])],
                        plain(),
                    )
                } else {
                    &&& r@.len() == items.len()
                    &&& forall|i: int|
                        0 <= i < items.len() ==> drawn_as(
                            #[trigger] r@[i],
                            card_rows(items[i]),
                            card_style(self@.selected_item() == i),
                        )
                }
            }),
    {
        let t = self.current_thread();
        let selected = self.current_thread_selected_item();
        let mut out: Vec<ListItem> = Vec::new();
        assert(t@.items.len() == t.items@.len());
        if t.items.len() == 0 {
            let mut lines: Vec<Line> = Vec::new();
            put_line(&mut lines, line1(span("No messages yet", ink(Color::DarkGray))));
            assert(line_views(lines@) =~= seq![
                row(seq![piece("No messages yet"@, ink(Color::DarkGray))]),
            ]);
            out.push(ListItem { lines, style: plain() });
            return out;
        }
        let ghost items = self@.current().items;
        let mut i: usize = 0;
        while i < t.items.len()
            invariant
                i <= t.items@.len(),
                items == run_item_views(t.items@),
                selected == self@.selected_item(),
                out@.len() == i,
                forall|k: int|
                    0 <= k < i ==> drawn_as(
                        #[trigger] out@[k],
                        card_rows(items[k]),
                        card_style(self@.selected_item() == k),
                    ),
            decreases t.items@.len() - i,
        {
            let item = t.items[i].to_list_item(selected == i);
            assert(items[i as int] == t.items@[i as int]@);
            out.push(item);
            i = i + 1;
        }
        out
    }

    /// The position of the card that is selected, if there are cards.
    pub fn thread_position(&self) -> (r: Option<usize>)
        requires
            self.wf(),
        ensures
            r == (if self@.current().items.len() == 0 {
                None
            } else if self@.selected_item() < self@.current().items.len() {
                Some(self@.selected_item() as usize)
            } else {
                Some((self@.current().items.len() - 1) as usize)
            }),
    {
        let count: usize = self.current_thread().items.len();
        let selected = self.current_thread_selected_item();
        if count == 0 {
            None
        } else if selected < count {
            Some(selected)
        } else {
            Some(count - 1)
        }
    }

    /// The title of the input.
    pub fn input_title(&self) -> (r: &'static str)
        requires
            self.wf(),
        ensures
            r@ == (if self@.current().read_only {
                "Input (read-only sub-agent thread)"@
            } else {
                "Input"@
            }),
    {
        if self.current_thread().read_only {
            "Input (read-only sub-agent thread)"
        } else {
            "Input"
        }
    }

    /// The style of the border of the input.
    pub fn input_border(&self) -> (r: Style)
        requires
            self.wf(),
        ensures
            r == (if self@.current().read_only {
                ink(Color::DarkGray)
            } else if self@.focus is Input {
                ink(Color::Green)
            } else {
                plain()
            }),
    {
        if self.current_thread().read_only {
            ink(Color::DarkGray)
        } else if self.focus == FocusPane::Input {
            ink(Color::Green)
        } else {
            plain()
        }
    }

    /// The place of the cursor in the input, from its top left, if the cursor is drawn.
    pub fn place_cursor(&mut self, width: u16, height: u16) -> (r: Option<(u16, u16)>)
        requires
            old(self).wf(),
        ensures
            final(self).wf(),
            ({
                let drawn = old(self)@.editable() && width > 0 && height > 0;
                let place = cursor_place(old(self)@.composer);
                &&& final(self)@ == (RunsView {
                    cursor_rel: if drawn {
                        Some(place)
                    } else {
                        None
                    },
                    ..old(self)@
                })
                &&& r == (if drawn {
                    Some(
                        (
                            clamped(place.0 as int, 0, width - 1) as u16,
                            clamped(place.1 as int, 0, height - 1) as u16,
                        ),
                    )
                } else {
                    None
                })
            }),
    {
        self.last_input_cursor_rel = None;
        if self.focus != FocusPane::Input || self.current_thread().read_only {
            return None;
        }
        if width == 0 || height == 0 {
            return None;
        }
        let (x, y) = self.composer.cursor_screen_position();
        self.last_input_cursor_rel = Some((x, y));
        let right: u16 = width - 1;
        let bottom: u16 = height - 1;
        let column: u16 = if x < right {
            x
        } else {
            right
        };
        let line: u16 = if y < bottom {
            y
        } else {
            bottom
        };
        Some((column, line))
    }

    /// The line at the bottom.
    pub fn status_line(&self) -> (r: String)
        ensures
            r@ == (match self@.status {
                Some(s) => s,
                None => "Tab: switch focus | Enter: send/open | Space: expand/collapse | Shift+Enter/Ctrl+J: newline"@,
            }),
    {
        match &self.status {
            Some(s) => s.clone(),
            None => "Tab: switch focus | Enter: send/open | Space: expand/collapse | Shift+Enter/Ctrl+J: newline".to_owned(),
        }
    }
}

// ---- laws --------------------------------------------------------------------------------

/// Nothing that is typed changes the input while the thread of a run is on screen.
pub proof fn threads_of_runs_take_no_text(
    st: RunsView,
    key: KeyEvent,
    read: Result<Option<String>, String>,
)
    requires
        st.threads.len() > 0,
        st.current().read_only,
    ensures
        st.pressed(key, read).0.composer == st.composer,
        !(st.pressed(key, read).1 is SendTurn),
{
}

/// After a list of runs came in there is one thread for each of them, the last run first, which
/// can only be read and shows the run's state.
pub proof fn one_thread_for_each_run(st: RunsView, runs: Seq<DelegatedRun>, i: int)
    requires
        0 <= i < runs.len(),
    ensures
        ({
            let after = runs_synced(st, runs);
            let t = after.threads[runs.len() - i];
            &&& after.threads.len() == runs.len() + 1
            &&& t.run_id == Some(runs[i].run_id@)
            &&& t.state == Some(runs[i].state@)
            &&& t.read_only
        }),
{
    let order = backwards(runs);
    let pool = runs_without(st.threads, SYSTEM_THREAD_ID@);
    lemma_kept(pool, order, runs.len() - 1 - i);
    let done = keep_all(pool, order).0;
    assert(order[runs.len() - 1 - i] == runs[i]);
    let after = runs_synced(st, runs);
    assert(after.threads[runs.len() - i] == done[runs.len() - 1 - i]);
}

proof fn lemma_kept(pool: Seq<RunThreadModel>, runs: Seq<DelegatedRun>, k: int)
    requires
        0 <= k < runs.len(),
    ensures
        keep_all(pool, runs).0.len() == runs.len(),
        ({
            let t = keep_all(pool, runs).0[k];
            &&& t.run_id == Some(runs[k].run_id@)
            &&& t.state == Some(runs[k].state@)
            &&& t.read_only
        }),
    decreases runs.len(),
{
    let front = runs.drop_last();
    lemma_kept_len(pool, front);
    if k < front.len() {
        lemma_kept(pool, front, k);
        assert(front[k] == runs[k]);
    }
}

proof fn lemma_kept_len(pool: Seq<RunThreadModel>, runs: Seq<DelegatedRun>)
    ensures
        keep_all(pool, runs).0.len() == runs.len(),
    decreases runs.len(),
{
    if runs.len() > 0 {
        lemma_kept_len(pool, runs.drop_last());
    }
}

/// A number is kept within its bounds.
pub proof fn numbers_stay_within_bounds(n: int, low: int, high: int)
    requires
        low <= high,
    ensures
        low <= clamped(n, low, high) <= high,
        low <= n <= high ==> clamped(n, low, high) == n,
        n < low ==> clamped(n, low, high) == low,
        n > high ==> clamped(n, low, high) == high,
{
}

/// The input has a row for each line and two for its borders, and leaves six rows to the rest.
pub proof fn inputs_of_runs_leave_room(lines: int, height: int)
    requires
        height >= 9,
    ensures
        1 <= lines <= height - 8 ==> run_input_rows(lines, height) == lines + 2,
        lines > height - 8 ==> run_input_rows(lines, height) == height - 6,
        lines < 1 ==> run_input_rows(lines, height) == 3,
{
}

/// A run in the sidebar shows its title and how it stands; the orchestrator is always active.
pub proof fn runs_are_listed_with_their_state(t: RunThreadModel)
    ensures
        t.id == "system0"@ ==> run_sidebar_row(t).spans.len() == 2 && run_sidebar_row(
            t,
        ).spans[0].content == "System0"@ && run_sidebar_row(t).spans[1].content == " [active]"@,
        t.id != "system0"@ ==> run_sidebar_row(t).spans.len() == 4 && run_sidebar_row(
            t,
        ).spans[0].content == t.title,
        t.id != "system0"@ && t.state is Some ==> run_sidebar_row(t).spans[2].content == t.state->0
            && run_sidebar_row(t).spans[2].style == state_ink(t.state->0),
        t.id != "system0"@ && t.state is None ==> run_sidebar_row(t).spans[2].content == "unknown"@,
        highlight(true).bold,
        !highlight(false).bold,
{
}

/// A card is drawn with its rows, in the order that they have, and in its style.
pub proof fn cards_are_drawn_whole(item: ListItem, rows: Seq<LineView>, style: Style, i: int)
    requires
        drawn_as(item, rows, style),
    ensures
        item.lines@.len() == rows.len(),
        0 <= i < rows.len() ==> item.lines@[i]@ == rows[i],
        item.style == style,
{
    assert(line_views(item.lines@).len() == rows.len());
    if 0 <= i < rows.len() {
        assert(line_views(item.lines@)[i] == rows[i]);
    }
}

} // verus!

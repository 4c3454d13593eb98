//! What of the chat is drawn where.

use vstd::prelude::*;
use crate::chat::app::{AppView, ChatApp, FocusPane, InteractionMode};
use crate::chat::composer::{cursor_at, ComposerView, DEFAULT_MAX_VISIBLE_LINES};
use crate::chat::events::ThreadKind;
use crate::chat::marks::number_for;
use crate::chat::paint::{
    bold, ink, line1, line3, line_views, on, piece, plain, put_line, raw, row, span, Color, Line,
    LineView, Style,
};
use crate::chat::preview::{status_ink, status_style};
use crate::chat::thread::{build_thread_lines, drawn, ThreadModel};
use crate::text::cat;

verus! {

/// Below this width the list of threads is not drawn.
pub const AUTO_COLLAPSE_SIDEBAR_WIDTH: u16 = 92;

/// The columns that are kept for the conversation.
pub const MIN_RIGHT_COLUMN_WIDTH: u16 = 58;

/// The width of the bar beside the input.
pub const PANE_GUTTER_WIDTH: u16 = 1;

/// The color of the bar beside the input.
#[verifier::allow_in_spec]
pub fn input_focus_color() -> Color
    returns
        (Color::Rgb(120, 210, 176)),
{
    Color::Rgb(120, 210, 176)
}

/// The background of the input.
#[verifier::allow_in_spec]
pub fn input_background() -> Color
    returns
        (Color::Rgb(58, 58, 68)),
{
    Color::Rgb(58, 58, 68)
}

/// The background of the list of threads.
#[verifier::allow_in_spec]
pub fn sidebar_background() -> Color
    returns
        (Color::Rgb(40, 44, 58)),
{
    Color::Rgb(40, 44, 58)
}

/// How a frame is divided.
#[derive(Debug, Clone, Copy, PartialEq, Eq, Structural)]
pub struct FramePlan {
    /// The rows of the input, with its borders.
    pub input_rows: u16,
    /// The columns of the list of threads, if it is drawn.
    pub sidebar_columns: Option<u16>,
}

/// The lines of input in view on a terminal of a height.
pub open spec fn lines_for(height: int) -> int {
    if height < 22 {
        4
    } else if height < 34 {
        6
    } else {
        DEFAULT_MAX_VISIBLE_LINES as int
    }
}

/// The columns of the list of threads: 28 percent, between 20 and 38, and no more than leaves the
/// conversation its own.
pub open spec fn sidebar_columns(width: int) -> int {
    let share = width * 28 / 100;
    let wanted = if share < 20 {
        20
    } else if share > 38 {
        38
    } else {
        share
    };
    let room = if width < MIN_RIGHT_COLUMN_WIDTH {
        0
    } else {
        width - MIN_RIGHT_COLUMN_WIDTH
    };
    if wanted < room {
        wanted
    } else {
        room
    }
}

/// The rows of the input: its lines and two more, at least three, and eight fewer than there are.
pub open spec fn input_rows(lines: int, height: int) -> int {
    let most = if height < 11 {
        3
    } else {
        height - 8
    };
    if lines + 2 < 3 {
        3
    } else if lines + 2 > most {
        most
    } else {
        lines + 2
    }
}

/// The rows that the input takes up.
pub open spec fn input_lines(c: ComposerView) -> int {
    let rows = if c.visible < 1 {
        1
    } else {
        c.visible
    };
    if c.last_line() + 1 < rows {
        c.last_line() + 1
    } else {
        rows
    }
}

impl AppView {
    /// The state fitted to a terminal.
    pub open spec fn fitted(self, width: int, height: int) -> AppView {
        let narrow = AppView { sidebar_auto_collapsed: width < AUTO_COLLAPSE_SIDEBAR_WIDTH, ..self };
        AppView {
            focus: if narrow.focus is Sidebar && !narrow.sidebar_shown() {
                FocusPane::Main
            } else {
                narrow.focus
            },
            composer: ComposerView { visible: lines_for(height), ..self.composer }.shown(),
            ..narrow
        }
    }

    /// The keys go to the conversation.
    pub open spec fn timeline_focused(self) -> bool {
        self.mode is Navigate || self.focus is Main
    }

    /// The card of the thread on screen that is drawn as selected.
    pub open spec fn drawn_selection(self) -> int {
        let last = crate::chat::app::last_of(self.current().items.len());
        if self.selected_item() < last {
            self.selected_item()
        } else {
            last
        }
    }

    /// The columns up to which selected cards are filled.
    pub open spec fn fill_width(self, width: int) -> int {
        let w = if width < 1 {
            1
        } else {
            width
        };
        if self.horizontal_offset() + w > usize::MAX {
            usize::MAX as int
        } else {
            self.horizontal_offset() + w
        }
    }

    /// The drawing of the thread on screen.
    pub open spec fn thread_drawing(self, width: int) -> crate::chat::thread::Drawing {
        drawn(
            self.current(),
            self.drawn_selection(),
            self.fill_width(width) as usize,
            self.main_filter,
            self.timeline_focused(),
        )
    }

    /// The state once the thread on screen has been drawn: the selected card is in view, and the
    /// last row is not above the bottom.
    pub open spec fn thread_drawn(self, width: int, height: int) -> AppView {
        let rows = if height < 1 {
            1
        } else {
            height
        };
        let d = self.thread_drawing(width);
        let id = self.current().id;
        let st = AppView { viewport_rows: rows as usize, ..self }.scroll_to(
            id,
            d.ranges,
            rows,
            d.place,
        );
        let most = if d.rows.len() < rows {
            0
        } else {
            d.rows.len() - rows
        };
        let at = number_for(st.vertical, id);
        AppView {
            vertical: st.vertical.insert(
                id,
                (if at < most {
                    at
                } else {
                    most
                }) as usize,
            ),
            ..st
        }
    }

    /// The cursor is drawn.
    pub open spec fn cursor_drawn(self) -> bool {
        self.mode is Compose && self.editable()
    }
}

/// Where the cursor is drawn, from the top left of the input.
pub open spec fn cursor_place(c: ComposerView) -> (u16, u16) {
    (
        ((2 + c.column()) % 0x1_0000) as u16,
        ((if c.line() < c.scroll {
            0
        } else {
            c.line() - c.scroll
        }) % 0x1_0000) as u16,
    )
}

/// The row of a thread in the list.
pub open spec fn sidebar_row(t: ThreadModel, focused: bool) -> LineView {
    let primary = if focused {
        Color::White
    } else {
        Color::Gray
    };
    match t.kind {
        ThreadKind::System => row(seq![piece("system0"@, ink(primary))]),
        ThreadKind::Subagent => row(
            seq![
                piece(t.title, ink(primary)),
                piece(" "@, plain()),
                piece(
                    t.state,
                    if focused {
                        status_ink(t.state)
                    } else {
                        ink(Color::Gray)
                    },
                ),
            ],
        ),
    }
}

/// The line at the bottom.
pub open spec fn status_text(st: AppView) -> Seq<char> {
    match st.status {
        Some(s) => s,
        None => "Mode:"@ + (match st.mode {
            InteractionMode::Compose => "input"@,
            InteractionMode::Navigate => "navigation"@,
        }) + " Sidebar:"@ + (if st.sidebar_shown() {
            "open"@
        } else {
            "hidden"@
        }) + " Filter:"@ + st.main_filter.name()
            + " | Esc Esc: navigation mode | i: input mode | Ctrl+B: toggle sidebar | Tab/Shift+Tab: focus | Enter: send/open | Space: expand | Left/Right: h-scroll | 1-4: filter | q: quit"@,
    }
}

/// The rows of the bar beside the input.
pub open spec fn gutter_row(active: bool) -> LineView {
    row(
        seq![
            piece(
                if active {
                    "┃"@
                } else {
                    " "@
                },
                on(input_focus_color(), input_background()),
            ),
        ],
    )
}

/// The thread on screen, ready to be drawn.
#[derive(Debug)]
pub struct ThreadFrame {
    pub lines: Vec<Line>,
    /// The rows scrolled out of view above.
    pub vertical: u16,
    /// The columns scrolled out of view at the left.
    pub horizontal: u16,
}

impl ChatApp {
    /// Fits the state to a terminal and says how to divide the frame. Nothing is drawn on a
    /// terminal without rows or columns.
    pub fn prepare_frame(&mut self, width: u16, height: u16) -> (r: Option<FramePlan>)
        requires
            old(self).wf(),
        ensures
            final(self).wf(),
            width == 0 || height == 0 ==> r is None && final(self)@ == old(self)@,
            width > 0 && height > 0 ==> {
                &&& final(self)@ == old(self)@.fitted(width as int, height as int)
                &&& r == Some(
                    FramePlan {
                        input_rows: input_rows(
                            input_lines(final(self)@.composer),
                            height as int,
                        ) as u16,
                        sidebar_columns: if final(self)@.sidebar_shown() {
                            Some(sidebar_columns(width as int) as u16)
                        } else {
                            None
                        },
                    },
                )
            },
    {
        if width == 0 || height == 0 {
            return None;
        }
        self.sidebar_auto_collapsed = width < AUTO_COLLAPSE_SIDEBAR_WIDTH;
        if self.focus == FocusPane::Sidebar && !self.sidebar_visible() {
            self.focus = FocusPane::Main;
        }
        let ghost k = self.composer.cursor();
        self.composer.max_visible_lines = if height < 22 {
            4
        } else if height < 34 {
            6
        } else {
            DEFAULT_MAX_VISIBLE_LINES
        };
        assert(cursor_at(self.composer.buffer@, k, self.composer.cursor_byte as int));
        self.composer.ensure_cursor_visible();
        let most: u16 = if height < 11 {
            3
        } else {
            height - 8
        };
        let lines = self.composer.input_height();
        let wanted: u16 = (lines as u16) + 2;
        let rows: u16 = if wanted < 3 {
            3
        } else if wanted > most {
            most
        } else {
            wanted
        };
        let columns = if self.sidebar_visible() {
            let share: u32 = (width as u32) * 28 / 100;
            let wanted: u16 = if share < 20 {
                20
            } else if share > 38 {
                38
            } else {
                share as u16
            };
            let room: u16 = width.saturating_sub(MIN_RIGHT_COLUMN_WIDTH);
            Some(
                if wanted < room {
                    wanted
                } else {
                    room
                },
            )
        } else {
            None
        };
        Some(FramePlan { input_rows: rows, sidebar_columns: columns })
    }

    /// Draws the thread on screen for a terminal pane.
    pub fn draw_thread(&mut self, width: u16, height: u16) -> (r: ThreadFrame)
        requires
            old(self).wf(),
        ensures
            final(self).wf(),
            final(self)@ == old(self)@.thread_drawn(width as int, height as int),
            line_views(r.lines@) == old(self)@.thread_drawing(width as int).rows,
            r.vertical == number_for(final(self)@.vertical, old(self)@.current().id) % 0x1_0000,
            r.horizontal == old(self)@.horizontal_offset() % 0x1_0000,
    {
        let ghost st = self@;
        let at: usize = if self.active_thread < self.threads.len() {
            self.active_thread
        } else {
            self.threads.len() - 1
        };
        assert(self.threads@[at as int]@ == st.current());
        let id = self.threads[at].id.clone();
        let len = self.threads[at].items.len();
        assert(st.current().items.len() == len);
        let last: usize = if len == 0 {
            0
        } else {
            len - 1
        };
        let chosen = self.current_thread_selected_item();
        let selected: usize = if chosen < last {
            chosen
        } else {
            last
        };
        let horizontal = self.current_thread_horizontal_offset();
        let columns: usize = if width < 1 {
            1
        } else {
            width as usize
        };
        let fill = horizontal.saturating_add(columns);
        let focused = self.mode == InteractionMode::Navigate || self.focus == FocusPane::Main;
        let (lines, ranges, place) = build_thread_lines(
            &self.threads[at],
            selected,
            fill,
            self.main_filter,
            focused,
        );
        assert(lines@.len() == line_views(lines@).len());
        let rows: usize = if height < 1 {
            1
        } else {
            height as usize
        };
        self.last_main_viewport_rows = rows;
        self.ensure_selected_visible_for(id.as_str(), &ranges, rows, place);
        let most = lines.len().saturating_sub(rows);
        let offset = self.vertical_scroll_by_thread.number(id.as_str());
        let vertical: usize = if offset < most {
            offset
        } else {
            most
        };
        self.vertical_scroll_by_thread.insert(id, vertical);
        ThreadFrame {
            lines,
            vertical: (vertical % 0x1_0000) as u16,
            horizontal: (horizontal % 0x1_0000) as u16,
        }
    }

    /// The place of the cursor in the input, from its top left, if the cursor is drawn.
    pub fn place_cursor(&mut self, width: u16, height: u16) -> (r: Option<(u16, u16)>)
        requires
            old(self).wf(),
        ensures
            final(self).wf(),
            ({
                let drawn = old(self)@.cursor_drawn() && width > 0 && height > 0;
                let place = cursor_place(old(self)@.composer);
                &&& final(self)@ == (AppView {
                    cursor_rel: if drawn {
                        Some(place)
                    } else {
                        None
                    },
                    ..old(self)@
                })
                &&& r == (if drawn {
                    Some(
                        (
                            if place.0 < width - 1 {
                                place.0
                            } else {
                                (width - 1) as u16
                            },
                            if place.1 < height - 1 {
                                place.1
                            } else {
                                (height - 1) as u16
                            },
                        ),
                    )
                } else {
                    None
                })
            }),
    {
        self.last_input_cursor_rel = None;
        if self.mode == InteractionMode::Navigate || self.focus != FocusPane::Input
            || self.current_thread().read_only {
            return None;
        }
        if width == 0 || height == 0 {
            return None;
        }
        let (x, y) = self.composer.cursor_screen_position();
        self.last_input_cursor_rel = Some((x, y));
        let right: u16 = width - 1;
        let bottom: u16 = height - 1;
        Some(
            (
                if x < right {
                    x
                } else {
                    right
                },
                if y < bottom {
                    y
                } else {
                    bottom
                },
            ),
        )
    }

    /// Whether keys go to the input.
    pub fn input_focused(&self) -> (r: bool)
        ensures
            r == (self@.mode is Compose && self@.focus is Input),
    {
        self.mode != InteractionMode::Navigate && self.focus == FocusPane::Input
    }

    /// The rows of the list of threads.
    pub fn sidebar_lines(&self) -> (r: Vec<Line>)
        ensures
            line_views(r@) == self@.threads.map_values(
                |t: ThreadModel| sidebar_row(t, self@.focus is Sidebar),
            ),
    {
        let focused = self.focus == FocusPane::Sidebar;
        let primary = if focused {
            Color::White
        } else {
            Color::Gray
        };
        let mut out: Vec<Line> = Vec::new();
        let ghost f = |t: ThreadModel| sidebar_row(t, self@.focus is Sidebar);
        let ghost want = self@.threads.map_values(f);
        let mut i: usize = 0;
        assert(line_views(out@) =~= want.take(0));
        while i < self.threads.len()
            invariant
                i <= self.threads@.len(),
                focused == (self@.focus is Sidebar),
                primary == (if focused {
                    Color::White
                } else {
                    Color::Gray
                }),
                f == (|t: ThreadModel| sidebar_row(t, self@.focus is Sidebar)),
                want == self@.threads.map_values(f),
                line_views(out@) == want.take(i as int),
            decreases self.threads@.len() - i,
        {
            let t = &self.threads[i];
            let line = match t.kind {
                ThreadKind::System => line1(span("system0", ink(primary))),
                ThreadKind::Subagent => {
                    let style = if focused {
                        status_style(t.state.as_str())
                    } else {
                        ink(Color::Gray)
                    };
                    line3(
                        span(t.title.as_str(), ink(primary)),
                        raw(" "),
                        span(t.state.as_str(), style),
                    )
                },
            };
            let ghost before = line_views(out@);
            put_line(&mut out, line);
            proof {
                assert(self@.threads[i as int] == t@);
                assert(want.take(i + 1) =~= before.push(want[i as int]));
            }
            i = i + 1;
        }
        assert(want.take(i as int) =~= want);
        out
    }

    /// The style of the thread that is selected in the list.
    pub fn sidebar_highlight(&self) -> (r: Style)
        ensures
            r == (Style {
                fg: Some(Color::White),
                bg: Some(Color::Rgb(54, 58, 76)),
                bold: self@.focus is Sidebar,
            }),
    {
        Style {
            fg: Some(Color::White),
            bg: Some(Color::Rgb(54, 58, 76)),
            bold: self.focus == FocusPane::Sidebar,
        }
    }

    /// The style of the heading of the list.
    pub fn sidebar_heading(&self) -> (r: Style)
        ensures
            r == bold(
                on(
                    if self@.focus is Sidebar {
                        Color::DarkGray
                    } else {
                        Color::Gray
                    },
                    sidebar_background(),
                ),
            ),
    {
        let secondary = if self.focus == FocusPane::Sidebar {
            Color::DarkGray
        } else {
            Color::Gray
        };
        bold(on(secondary, sidebar_background()))
    }

    /// The position in the list of the thread that is selected there.
    pub fn sidebar_position(&self) -> (r: usize)
        ensures
            r == (if self@.sidebar_selected < self@.threads.len() {
                self@.sidebar_selected as int
            } else {
                crate::chat::app::last_of(self@.threads.len())
            }),
    {
        let last = self.threads.len().saturating_sub(1);
        if self.sidebar_selected < last {
            self.sidebar_selected
        } else {
            last
        }
    }

    /// The line at the bottom.
    pub fn status_line(&self) -> (r: String)
        ensures
            r@ == status_text(self@),
    {
        match &self.status {
            Some(s) => s.clone(),
            None => {
                let mode = match self.mode {
                    InteractionMode::Compose => "input",
                    InteractionMode::Navigate => "navigation",
                };
                let sidebar = if self.sidebar_visible() {
                    "open"
                } else {
                    "hidden"
                };
                let mut text = cat("Mode:", mode);
                text.append(" Sidebar:");
                text.append(sidebar);
                text.append(" Filter:");
                text.append(self.main_filter.label());
                text.append(
                    " | Esc Esc: navigation mode | i: input mode | Ctrl+B: toggle sidebar | Tab/Shift+Tab: focus | Enter: send/open | Space: expand | Left/Right: h-scroll | 1-4: filter | q: quit",
                );
                text
            },
        }
    }
}

/// The bar beside the input.
pub fn focus_gutter_lines(height: u16, active: bool) -> (r: Vec<Line>)
    ensures
        line_views(r@) == Seq::new(height as nat, |i: int| gutter_row(active)),
{
    let mark = if active {
        "┃"
    } else {
        " "
    };
    let mut out: Vec<Line> = Vec::new();
    let mut i: u16 = 0;
    while i < height
        invariant
            i <= height,
            mark@ == (if active {
                "┃"@
            } else {
                " "@
            }),
            line_views(out@) == Seq::new(i as nat, |k: int| gutter_row(active)),
        decreases height - i,
    {
        put_line(&mut out, line1(span(mark, on(input_focus_color(), input_background()))));
        assert(line_views(out@) =~= Seq::new((i + 1) as nat, |k: int| gutter_row(active)));
        i = i + 1;
    }
    out
}

// ---- laws --------------------------------------------------------------------------------

/// On every terminal wide enough for a list of threads the conversation keeps its columns.
pub proof fn conversation_keeps_its_columns(width: int)
    requires
        width >= AUTO_COLLAPSE_SIDEBAR_WIDTH,
    ensures
        20 <= sidebar_columns(width) <= 38,
        width - sidebar_columns(width) >= MIN_RIGHT_COLUMN_WIDTH,
{
}

/// A list of threads that is not on screen never has the focus.
pub proof fn hidden_sidebar_has_no_focus(st: AppView, width: int, height: int)
    ensures
        !st.fitted(width, height).sidebar_shown() ==> !(st.fitted(width, height).focus is Sidebar),
{
}

/// How many lines of the input are shown: four on a small screen, six on a larger, and then ten.
pub proof fn inputs_grow_with_the_screen(height: int)
    ensures
        height < 22 ==> lines_for(height) == 4,
        22 <= height < 34 ==> lines_for(height) == 6,
        height >= 34 ==> lines_for(height) == 10,
{
}

/// The sidebar takes 28 columns of a hundred, from 20 to 38, and leaves the conversation 58.
pub proof fn sidebars_take_their_share(width: int)
    ensures
        72 <= width <= 138 && width - 58 >= width * 28 / 100 ==> sidebar_columns(width) == width * 28
            / 100,
        width >= 139 ==> sidebar_columns(width) == 38,
        width <= 58 ==> sidebar_columns(width) == 0,
        58 <= width <= 71 ==> sidebar_columns(width) == width - 58,
{
}

/// The input has a row for each line and two for its borders, at least three rows, and leaves eight
/// rows to the rest.
pub proof fn inputs_leave_room(lines: int, height: int)
    requires
        height >= 11,
    ensures
        1 <= lines <= height - 10 ==> input_rows(lines, height) == lines + 2,
        lines > height - 10 ==> input_rows(lines, height) == height - 8,
        lines < 1 ==> input_rows(lines, height) == 3,
{
}

/// A narrow screen hides the sidebar by itself, and the focus leaves it then. Nothing else about the
/// chat changes but the room for the input.
pub proof fn narrow_screens_hide_the_sidebar(st: AppView, width: int, height: int)
    ensures
        ({
            let after = st.fitted(width, height);
            &&& after.sidebar_auto_collapsed <==> width < 92
            &&& after.sidebar_collapsed == st.sidebar_collapsed
            &&& !(st.focus is Sidebar) ==> after.focus == st.focus
            &&& st.focus is Sidebar && (width < 92 || st.sidebar_collapsed) ==> after.focus is Main
            &&& st.focus is Sidebar && width >= 92 && !st.sidebar_collapsed ==> after.focus is Sidebar
            &&& after.composer.text == st.composer.text
            &&& after.composer.cursor == st.composer.cursor
            &&& after.composer.visible == lines_for(height)
            &&& after.threads == st.threads
            &&& after.selected == st.selected
            &&& after.mode == st.mode
        }),
{
}

/// The cursor is drawn where one can write, two columns behind the prompt, on its line as far as it
/// is in view.
pub proof fn the_cursor_is_drawn_where_one_writes(st: AppView)
    ensures
        st.cursor_drawn() <==> st.mode is Compose && st.focus is Input && !st.current().read_only,
        st.timeline_focused() <==> st.mode is Navigate || st.focus is Main,
        0 <= st.composer.column() < 0x1_0000 - 2 ==> cursor_place(st.composer).0 == 2
            + st.composer.column(),
        0 <= st.composer.scroll <= st.composer.line() < 0x1_0000 ==> cursor_place(st.composer).1
            == st.composer.line() - st.composer.scroll,
{
}

/// As many lines of the input are shown as it has, up to the room for them.
pub proof fn inputs_show_their_lines(c: ComposerView)
    requires
        c.visible >= 1,
    ensures
        c.last_line() + 1 <= c.visible ==> input_lines(c) == c.last_line() + 1,
        c.last_line() + 1 > c.visible ==> input_lines(c) == c.visible,
{
}

/// A thread in the sidebar shows its title and how it stands; the orchestrator's only its name.
pub proof fn threads_are_listed_with_their_state(t: ThreadModel, focused: bool)
    ensures
        t.kind is System ==> sidebar_row(t, focused).spans.len() == 1 && sidebar_row(
            t,
            focused,
        ).spans[0].content == "system0"@,
        t.kind is Subagent ==> sidebar_row(t, focused).spans.len() == 3 && sidebar_row(
            t,
            focused,
        ).spans[0].content == t.title && sidebar_row(t, focused).spans[2].content == t.state,
        t.kind is Subagent && focused ==> sidebar_row(t, focused).spans[2].style == status_ink(t.state),
        sidebar_row(t, focused).spans[0].style == ink(
            if focused {
                Color::White
            } else {
                Color::Gray
            },
        ),
{
}

/// The last line says what happened last, or how the chat stands and what keys there are.
pub proof fn the_last_line_tells_the_state(st: AppView)
    ensures
        st.status matches Some(s) ==> status_text(st) == s,
        st.status is None ==> ({
            let mode = if st.mode is Compose {
                "input"@
            } else {
                "navigation"@
            };
            let sidebar = if st.sidebar_shown() {
                "open"@
            } else {
                "hidden"@
            };
            (("Mode:"@ + mode) + " Sidebar:"@ + sidebar + " Filter:"@
                + st.main_filter.name()).is_prefix_of(status_text(st))
        }),
{
    if st.status is None {
        let mode = if st.mode is Compose {
            "input"@
        } else {
            "navigation"@
        };
        let sidebar = if st.sidebar_shown() {
            "open"@
        } else {
            "hidden"@
        };
        let start = ("Mode:"@ + mode) + " Sidebar:"@ + sidebar + " Filter:"@ + st.main_filter.name();
        assert(start =~= status_text(st).take(start.len() as int));
    }
}

/// A thread is drawn with its selected card in view, and never scrolled past its last row.
pub proof fn threads_are_not_scrolled_past_the_end(st: AppView, width: int, height: int)
    requires
        height >= 1,
        height <= usize::MAX,
        st.thread_drawing(width).rows.len() <= usize::MAX,
    ensures
        ({
            let after = st.thread_drawn(width, height);
            let id = st.current().id;
            let rows = st.thread_drawing(width).rows.len();
            &&& after.viewport_rows == height
            &&& rows <= height ==> after.vertical[id] == 0
            &&& rows > height ==> after.vertical[id] <= rows - height
            &&& after.threads == st.threads
            &&& after.selected == st.selected
            &&& after.composer == st.composer
        }),
{
}

/// What is drawn as selected is the selected card, or the last where there is none such.
pub proof fn the_selected_card_is_drawn_so(st: AppView, width: int)
    ensures
        0 <= st.selected_item() < st.current().items.len() ==> st.drawn_selection()
            == st.selected_item(),
        st.selected_item() >= st.current().items.len() > 0 ==> st.drawn_selection()
            == st.current().items.len() - 1,
        1 <= width && st.horizontal_offset() + width <= usize::MAX ==> st.fill_width(width)
            == st.horizontal_offset() + width,
{
}

/// The bar beside the input is there while it has the focus.
pub proof fn the_bar_shows_the_focus(active: bool)
    ensures
        gutter_row(active).spans.len() == 1,
        gutter_row(active).spans[0].content == (if active {
            "┃"@
        } else {
            " "@
        }),
{
}

} // verus!

//! The input box of the chat: a text, a cursor in it, and the part of it that is in view.

use vstd::prelude::*;
use crate::text::{
    byte_len, bytes_in, chars_of, char_index, char_width, index_from, is_blank,
    lemma_byte_len_prefix, lemma_byte_len_push, lemma_char_index, replace, split_on, string_of, cat,
};

verus! {

/// How many lines of input are in view unless the terminal is small.
pub const DEFAULT_MAX_VISIBLE_LINES: usize = 10;

/// What stands in front of each line of input.
pub const INPUT_PREFIX: &'static str = "> ";

/// The text being typed and the cursor in it. The cursor is a byte offset into `buffer`.
#[derive(Debug, Clone)]
pub struct ComposerState {
    pub buffer: String,
    pub cursor_byte: usize,
    pub scroll_line_offset: usize,
    pub max_visible_lines: usize,
    pub preferred_column: Option<usize>,
}

/// The input box, with its cursor as a number of characters.
pub struct ComposerView {
    pub text: Seq<char>,
    pub cursor: int,
    pub scroll: int,
    pub visible: int,
    pub preferred: Option<usize>,
}

/// Byte offset `byte` stands before the `k`-th character of `text`.
pub open spec fn cursor_at(text: Seq<char>, k: int, byte: int) -> bool {
    0 <= k <= text.len() && byte_len(text.take(k)) == byte
}

/// The number of lines that end before position `k`.
pub open spec fn line_at(text: Seq<char>, k: int) -> int
    decreases k,
{
    if k <= 0 {
        0
    } else if text[k - 1] == '\n' {
        line_at(text, k - 1) + 1
    } else {
        line_at(text, k - 1)
    }
}

/// Where the line begins that position `k` is on.
pub open spec fn line_begin(text: Seq<char>, k: int) -> int
    decreases k,
{
    if k <= 0 {
        0
    } else if text[k - 1] == '\n' {
        k
    } else {
        line_begin(text, k - 1)
    }
}

/// Line `line` of `text` begins at byte offset `byte`.
pub open spec fn line_offset(text: Seq<char>, line: int, byte: int) -> bool {
    exists|k: int|
        #[trigger] cursor_at(text, k, byte) && line_at(text, k) == line && line_begin(text, k) == k
}

/// The column of position `k`, in characters.
pub open spec fn column_at(text: Seq<char>, k: int) -> int {
    k - line_begin(text, k)
}

/// Position `k` is on line `line`, at the column nearest to `col` that the line has.
pub open spec fn placed(text: Seq<char>, k: int, line: int, col: int) -> bool {
    &&& 0 <= k <= text.len()
    &&& line_at(text, k) == line
    &&& column_at(text, k) <= col
    &&& column_at(text, k) < col ==> k == text.len() || text[k] == '\n'
}

/// The position on line `line` at the column nearest to `col` that the line has.
pub open spec fn spot(text: Seq<char>, line: int, col: int) -> int {
    choose|k: int| placed(text, k, line, col)
}

/// The first line in view once the cursor's line is in view, moving as little as possible.
pub open spec fn scrolled(scroll: int, line: int, visible: int) -> int {
    let rows = if visible < 1 {
        1
    } else {
        visible
    };
    if line < scroll {
        line
    } else if line >= scroll + rows {
        line + 1 - rows
    } else {
        scroll
    }
}

impl ComposerView {
    /// The line that the cursor is on.
    pub open spec fn line(self) -> int {
        line_at(self.text, self.cursor)
    }

    /// The column that the cursor is in.
    pub open spec fn column(self) -> int {
        column_at(self.text, self.cursor)
    }

    /// The column that moving up and down aims at.
    pub open spec fn aim(self) -> int {
        match self.preferred {
            Some(col) => col as int,
            None => self.column(),
        }
    }

    /// The index of the last line.
    pub open spec fn last_line(self) -> int {
        line_at(self.text, self.text.len() as int)
    }

    /// The state once the cursor's line is in view.
    pub open spec fn shown(self) -> ComposerView {
        ComposerView { scroll: scrolled(self.scroll, self.line(), self.visible), ..self }
    }

    /// The state with `s` put in at the cursor.
    pub open spec fn inserted(self, s: Seq<char>) -> ComposerView {
        ComposerView {
            text: self.text.take(self.cursor) + s + self.text.skip(self.cursor),
            cursor: self.cursor + s.len(),
            preferred: None,
            ..self
        }.shown()
    }

    /// The state with the character before the cursor taken out.
    pub open spec fn erased(self) -> ComposerView {
        if self.cursor == 0 {
            self
        } else {
            ComposerView {
                text: self.text.remove(self.cursor - 1),
                cursor: self.cursor - 1,
                preferred: None,
                ..self
            }.shown()
        }
    }

    /// The state with the cursor on the line above, unless it is on the first one.
    pub open spec fn raised(self) -> ComposerView {
        if self.line() == 0 {
            self
        } else {
            ComposerView {
                cursor: spot(self.text, self.line() - 1, self.aim()),
                preferred: Some(self.aim() as usize),
                ..self
            }.shown()
        }
    }

    /// The state with the cursor on the line below, unless it is on the last one.
    pub open spec fn lowered(self) -> ComposerView {
        if self.line() >= self.last_line() {
            self
        } else {
            ComposerView {
                cursor: spot(self.text, self.line() + 1, self.aim()),
                preferred: Some(self.aim() as usize),
                ..self
            }.shown()
        }
    }

    /// The state once the text has been handed out.
    pub open spec fn emptied(self) -> ComposerView {
        ComposerView { text: Seq::empty(), cursor: 0, scroll: 0, preferred: None, ..self }
    }

    /// The state with the cursor at `k` and no column to aim at.
    pub open spec fn moved(self, k: int) -> ComposerView {
        ComposerView { cursor: k, preferred: None, ..self }.shown()
    }

    /// The state with the cursor one character back.
    pub open spec fn left(self) -> ComposerView {
        if self.cursor == 0 {
            self
        } else {
            self.moved(self.cursor - 1)
        }
    }

    /// The state with the cursor one character on.
    pub open spec fn right(self) -> ComposerView {
        if self.cursor == self.text.len() {
            self
        } else {
            self.moved(self.cursor + 1)
        }
    }
}

/// Texts with a single kind of line end.
pub open spec fn normalized(s: Seq<char>) -> Seq<char> {
    crate::text::replaced(crate::text::replaced(s, "\r\n"@, "\n"@), "\r"@, "\n"@)
}

impl ComposerState {
    /// The cursor stands between two characters of the text.
    pub open spec fn wf(self) -> bool {
        exists|k: int| cursor_at(self.buffer@, k, self.cursor_byte as int)
    }

    /// The number of characters before the cursor.
    pub open spec fn cursor(self) -> int {
        choose|k: int| cursor_at(self.buffer@, k, self.cursor_byte as int)
    }

    /// An empty input box.
    pub fn new() -> (r: ComposerState)
        ensures
            r.wf(),
            r@ == (ComposerView {
                text: Seq::empty(),
                cursor: 0,
                scroll: 0,
                visible: DEFAULT_MAX_VISIBLE_LINES as int,
                preferred: None,
            }),
    {
        let r = ComposerState {
            buffer: String::new(),
            cursor_byte: 0,
            scroll_line_offset: 0,
            max_visible_lines: DEFAULT_MAX_VISIBLE_LINES,
            preferred_column: None,
        };
        proof {
            assert(r.buffer@.take(0) =~= Seq::<char>::empty());
            lemma_cursor(r, 0);
        }
        r
    }

    /// The rows that the input takes up: one for each line, as far as they are in view.
    pub fn input_height(&self) -> (r: usize)
        ensures
            r == ({
                let rows = if self.max_visible_lines < 1 {
                    1
                } else {
                    self.max_visible_lines as int
                };
                let lines = self@.last_line() + 1;
                if lines < rows {
                    lines
                } else {
                    rows
                }
            }),
    {
        let lines = self.logical_line_count();
        let rows: usize = if self.max_visible_lines < 1 {
            1
        } else {
            self.max_visible_lines
        };
        if lines < rows {
            lines
        } else {
            rows
        }
    }

    /// Puts `ch` in at the cursor.
    pub fn insert_char(&mut self, ch: char)
        requires
            old(self).wf(),
        ensures
            final(self).wf(),
            final(self)@ == old(self)@.inserted(seq![ch]),
    {
        let mut one = String::new();
        one.push(ch);
        self.put(one.as_str());
        assert(one@ =~= seq![ch]);
    }

    /// Puts a text in at the cursor, its line ends made line feeds.
    pub fn insert_str(&mut self, input: &str)
        requires
            old(self).wf(),
        ensures
            final(self).wf(),
            final(self)@ == (if normalized(input@).len() == 0 {
                old(self)@
            } else {
                old(self)@.inserted(normalized(input@))
            }),
    {
        let text = normalize_line_endings(input);
        if text.as_str().is_empty() {
            return;
        }
        self.put(text.as_str());
    }

    fn put(&mut self, piece: &str)
        requires
            old(self).wf(),
        ensures
            final(self).wf(),
            final(self)@ == old(self)@.inserted(piece@),
    {
        let ghost before = self@;
        let at = self.cursor_index();
        let chars = chars_of(self.buffer.as_str());
        let mut text = string_of(&chars, 0, at);
        text.append(piece);
        let tail = string_of(&chars, at, chars.len());
        let new_cursor = bytes_in(text.as_str());
        let ghost head = text@;
        text.append(tail.as_str());
        self.buffer = text;
        self.cursor_byte = new_cursor;
        self.preferred_column = None;
        proof {
            assert(before.text.take(before.cursor) =~= chars@.subrange(0, at as int));
            assert(before.text.skip(before.cursor) =~= chars@.subrange(
                at as int,
                chars@.len() as int,
            ));
            assert(self.buffer@.take(head.len() as int) =~= head);
            lemma_cursor(*self, head.len() as int);
        }
        self.ensure_cursor_visible();
    }

    /// Begins a new line at the cursor.
    pub fn newline(&mut self)
        requires
            old(self).wf(),
        ensures
            final(self).wf(),
            final(self)@ == old(self)@.inserted(seq!['\n']),
    {
        self.insert_char('\n');
    }

    /// Takes out the character before the cursor.
    pub fn backspace(&mut self)
        requires
            old(self).wf(),
        ensures
            final(self).wf(),
            final(self)@ == old(self)@.erased(),
    {
        let ghost before = self@;
        let at = self.cursor_index();
        if at == 0 {
            return;
        }
        let chars = chars_of(self.buffer.as_str());
        let mut text = string_of(&chars, 0, at - 1);
        let tail = string_of(&chars, at, chars.len());
        let new_cursor = bytes_in(text.as_str());
        let ghost head = text@;
        text.append(tail.as_str());
        self.buffer = text;
        self.cursor_byte = new_cursor;
        self.preferred_column = None;
        proof {
            assert(self.buffer@ =~= before.text.remove(before.cursor - 1));
            assert(self.buffer@.take(head.len() as int) =~= head);
            lemma_cursor(*self, head.len() as int);
        }
        self.ensure_cursor_visible();
    }

    /// Moves the cursor one character back.
    pub fn cursor_left(&mut self)
        requires
            old(self).wf(),
        ensures
            final(self).wf(),
            final(self)@ == old(self)@.left(),
    {
        let at = self.cursor_index();
        if at == 0 {
            return;
        }
        let chars = chars_of(self.buffer.as_str());
        self.cursor_byte = self.bytes_before(&chars, at - 1);
        self.preferred_column = None;
        proof {
            lemma_cursor(*self, at - 1);
        }
        self.ensure_cursor_visible();
    }

    /// Moves the cursor one character on.
    pub fn cursor_right(&mut self)
        requires
            old(self).wf(),
        ensures
            final(self).wf(),
            final(self)@ == old(self)@.right(),
    {
        let at = self.cursor_index();
        let chars = chars_of(self.buffer.as_str());
        if at >= chars.len() {
            return;
        }
        self.cursor_byte = self.bytes_before(&chars, at + 1);
        self.preferred_column = None;
        proof {
            lemma_cursor(*self, at + 1);
        }
        self.ensure_cursor_visible();
    }

    /// Moves the cursor to the line above, as near to the column aimed at as that line allows.
    pub fn cursor_up(&mut self)
        requires
            old(self).wf(),
        ensures
            final(self).wf(),
            final(self)@ == old(self)@.raised(),
            old(self)@.line() > 0 ==> placed(
                old(self)@.text,
                final(self)@.cursor,
                old(self)@.line() - 1,
                old(self)@.aim(),
            ),
    {
        let (line, col) = self.cursor_line_col();
        if line == 0 {
            return;
        }
        let desired: usize = match self.preferred_column {
            Some(c) => c,
            None => col,
        };
        proof {
            lemma_line_mono(self.buffer@, self.cursor(), self.buffer@.len() as int);
        }
        self.set_cursor_line_col(line - 1, desired);
        let ghost k = self.cursor();
        self.preferred_column = Some(desired);
        proof {
            lemma_cursor(*self, k);
            lemma_spot(self.buffer@, k, line_at(self.buffer@, k), desired as int);
        }
        self.ensure_cursor_visible();
    }

    /// Moves the cursor to the line below, as near to the column aimed at as that line allows.
    pub fn cursor_down(&mut self)
        requires
            old(self).wf(),
        ensures
            final(self).wf(),
            final(self)@ == old(self)@.lowered(),
            old(self)@.line() < old(self)@.last_line() ==> placed(
                old(self)@.text,
                final(self)@.cursor,
                old(self)@.line() + 1,
                old(self)@.aim(),
            ),
    {
        let (line, col) = self.cursor_line_col();
        let max_line = self.logical_line_count() - 1;
        if line >= max_line {
            proof {
                lemma_line_mono(self.buffer@, self.cursor(), self.buffer@.len() as int);
            }
            return;
        }
        let desired: usize = match self.preferred_column {
            Some(c) => c,
            None => col,
        };
        self.set_cursor_line_col(line + 1, desired);
        let ghost k = self.cursor();
        self.preferred_column = Some(desired);
        proof {
            lemma_cursor(*self, k);
            lemma_spot(self.buffer@, k, line_at(self.buffer@, k), desired as int);
        }
        self.ensure_cursor_visible();
    }

    /// Hands out the text and empties the box, unless there is nothing but white space in it.
    pub fn submit(&mut self) -> (r: Option<String>)
        requires
            old(self).wf(),
        ensures
            final(self).wf(),
            crate::text::blank(old(self)@.text) ==> r is None && final(self)@ == old(self)@,
            !crate::text::blank(old(self)@.text) ==> {
                &&& crate::text::opt_view(r) == Some(old(self)@.text)
                &&& final(self)@ == old(self)@.emptied()
            },
    {
        if is_blank(self.buffer.as_str()) {
            return None;
        }
        let mut out = String::new();
        std::mem::swap(&mut out, &mut self.buffer);
        self.cursor_byte = 0;
        self.scroll_line_offset = 0;
        self.preferred_column = None;
        proof {
            assert(self.buffer@.take(0) =~= Seq::<char>::empty());
            lemma_cursor(*self, 0);
        }
        Some(out)
    }

    /// The lines as they are drawn, with the prompt in front of each.
    pub fn prefixed_lines(&self) -> (r: Vec<String>)
        ensures
            crate::text::views(r@) == crate::text::split(self.buffer@, '\n').map_values(
                |line: Seq<char>| INPUT_PREFIX@ + line,
            ),
    {
        let lines = self.logical_lines();
        let mut r: Vec<String> = Vec::new();
        let ghost f = |line: Seq<char>| INPUT_PREFIX@ + line;
        let ghost want = crate::text::split(self.buffer@, '\n').map_values(f);
        let mut i: usize = 0;
        while i < lines.len()
            invariant
                i <= lines@.len(),
                crate::text::views(lines@) == crate::text::split(self.buffer@, '\n'),
                want == crate::text::split(self.buffer@, '\n').map_values(f),
                f == (|line: Seq<char>| INPUT_PREFIX@ + line),
                crate::text::views(r@) == want.take(i as int),
            decreases lines@.len() - i,
        {
            let row = cat(INPUT_PREFIX, lines[i].as_str());
            let ghost before = r@;
            r.push(row);
            proof {
                assert(crate::text::views(lines@)[i as int] == lines@[i as int]@);
                assert(crate::text::views(r@) =~= crate::text::views(before).push(row@));
                assert(want.take(i + 1) =~= want.take(i as int).push(want[i as int]));
            }
            i = i + 1;
        }
        assert(want.take(i as int) =~= want);
        r
    }

    /// Where the cursor is drawn, from the top left of the input. Sixteen bits of each number are
    /// kept.
    pub fn cursor_screen_position(&self) -> (r: (u16, u16))
        requires
            self.wf(),
        ensures
            r.0 == (2 + self@.column()) % 0x1_0000,
            r.1 == (if self@.line() < self@.scroll {
                0
            } else {
                self@.line() - self@.scroll
            }) % 0x1_0000,
    {
        let (line, col) = self.cursor_line_col();
        let rel: usize = if line < self.scroll_line_offset {
            0
        } else {
            line - self.scroll_line_offset
        };
        let x: usize = col % 0x1_0000 + 2;
        ((x % 0x1_0000) as u16, (rel % 0x1_0000) as u16)
    }

    /// Scrolls by as little as needed to have the cursor's line in view.
    pub fn ensure_cursor_visible(&mut self)
        requires
            old(self).wf(),
        ensures
            final(self).wf(),
            final(self)@ == old(self)@.shown(),
            final(self).buffer == old(self).buffer,
            final(self).cursor_byte == old(self).cursor_byte,
    {
        let visible: usize = if self.max_visible_lines < 1 {
            1
        } else {
            self.max_visible_lines
        };
        let (line, _) = self.cursor_line_col();
        let ghost k = self.cursor();
        if line < self.scroll_line_offset {
            self.scroll_line_offset = line;
        } else if line - self.scroll_line_offset >= visible {
            self.scroll_line_offset = line - visible + 1;
        }
        proof {
            lemma_cursor(*self, k);
        }
    }

    /// The lines of the text.
    pub fn logical_lines(&self) -> (r: Vec<String>)
        ensures
            crate::text::views(r@) == crate::text::split(self.buffer@, '\n'),
            r@.len() == self@.last_line() + 1,
    {
        proof {
            lemma_split_count(self.buffer@);
        }
        let r = split_on(self.buffer.as_str(), '\n');
        assert(r@.len() == crate::text::views(r@).len());
        r
    }

    /// The number of lines, at least one.
    pub fn logical_line_count(&self) -> (r: usize)
        ensures
            r == self@.last_line() + 1,
            r >= 1,
    {
        proof {
            lemma_line_mono(self.buffer@, 0, self.buffer@.len() as int);
        }
        self.logical_lines().len()
    }

    /// The line and the column of the cursor.
    pub fn cursor_line_col(&self) -> (r: (usize, usize))
        requires
            self.wf(),
        ensures
            r.0 == self@.line(),
            r.1 == self@.column(),
    {
        let at = self.cursor_index();
        let chars = chars_of(self.buffer.as_str());
        let mut i: usize = 0;
        let mut line: usize = 0;
        let mut begin: usize = 0;
        while i < at
            invariant
                i <= at <= chars@.len(),
                line == line_at(chars@, i as int),
                begin == line_begin(chars@, i as int),
                begin <= i,
                line <= i,
            decreases at - i,
        {
            if chars[i] == '\n' {
                line = line + 1;
                begin = i + 1;
            }
            i = i + 1;
        }
        (line, at - begin)
    }

    /// Puts the cursor on a line, or the last one if there are fewer, as near to a column as the
    /// line allows.
    pub fn set_cursor_line_col(&mut self, line_idx: usize, desired_col: usize)
        requires
            old(self).wf(),
        ensures
            final(self).wf(),
            placed(
                old(self)@.text,
                final(self)@.cursor,
                if line_idx < old(self)@.last_line() {
                    line_idx as int
                } else {
                    old(self)@.last_line()
                },
                desired_col as int,
            ),
            final(self)@ == (ComposerView { cursor: final(self)@.cursor, ..old(self)@ }),
    {
        let chars = chars_of(self.buffer.as_str());
        let mut begin: usize = 0;
        let mut line: usize = 0;
        proof {
            lemma_line_mono(chars@, 0, chars@.len() as int);
        }
        while line < line_idx
            invariant
                begin <= chars@.len(),
                line <= begin,
                line <= line_idx,
                line <= line_at(chars@, chars@.len() as int),
                line_at(chars@, begin as int) == line,
                line_begin(chars@, begin as int) == begin,
            ensures
                begin <= chars@.len(),
                line_at(chars@, begin as int) == line,
                line_begin(chars@, begin as int) == begin,
                line == (if line_idx < line_at(chars@, chars@.len() as int) {
                    line_idx as int
                } else {
                    line_at(chars@, chars@.len() as int)
                }),
            decreases line_idx - line,
        {
            let to = index_from(&chars, '\n', begin);
            proof {
                let rest = chars@.skip(begin as int);
                lemma_char_index(rest, '\n');
                assert forall|j: int| begin <= j < to implies chars@[j] != '\n' by {
                    assert(rest[j - begin] == chars@[j]);
                }
                lemma_same_line(chars@, begin as int, to as int);
                assert(to < chars@.len() ==> rest[to - begin] == chars@[to as int]);
            }
            if to == chars.len() {
                break;
            }
            proof {
                lemma_line_mono(chars@, to + 1, chars@.len() as int);
            }
            line = line + 1;
            begin = to + 1;
        }
        let end = index_from(&chars, '\n', begin);
        let target: usize = if desired_col < end - begin {
            begin + desired_col
        } else {
            end
        };
        proof {
            let rest = chars@.skip(begin as int);
            lemma_char_index(rest, '\n');
            assert forall|j: int| begin <= j < target implies chars@[j] != '\n' by {
                assert(rest[j - begin] == chars@[j]);
            }
            lemma_same_line(chars@, begin as int, target as int);
            assert(end < chars@.len() ==> rest[end - begin] == chars@[end as int]);
        }
        self.cursor_byte = self.bytes_before(&chars, target);
        proof {
            lemma_cursor(*self, target as int);
        }
    }

    /// The byte offset at which each line begins.
    pub fn line_starts(&self) -> (r: Vec<usize>)
        ensures
            r@.len() == self@.last_line() + 1,
            forall|i: int|
                0 <= i < r@.len() ==> line_offset(self.buffer@, i, #[trigger] r@[i] as int),
    {
        let chars = chars_of(self.buffer.as_str());
        let total = bytes_in(self.buffer.as_str());
        let mut r: Vec<usize> = Vec::new();
        r.push(0);
        let mut i: usize = 0;
        let mut at: usize = 0;
        proof {
            assert(chars@.take(0) =~= Seq::<char>::empty());
            assert(cursor_at(chars@, 0, 0));
            assert(line_offset(chars@, 0, 0));
        }
        while i < chars.len()
            invariant
                i <= chars@.len(),
                chars@ == self.buffer@,
                total == byte_len(chars@),
                at == byte_len(chars@.take(i as int)),
                r@.len() == line_at(chars@, i as int) + 1,
                forall|j: int|
                    0 <= j < r@.len() ==> line_offset(chars@, j, #[trigger] r@[j] as int),
            decreases chars@.len() - i,
        {
            proof {
                assert(chars@.take(i + 1) =~= chars@.take(i as int).push(chars@[i as int]));
                lemma_byte_len_push(chars@.take(i as int), chars@[i as int]);
                lemma_byte_len_prefix(chars@, i as int, i + 1);
            }
            at = at + char_width(chars[i]);
            if chars[i] == '\n' {
                r.push(at);
                proof {
                    assert(cursor_at(chars@, i + 1, at as int));
                    assert(line_offset(chars@, r@.len() - 1, at as int));
                }
            }
            i = i + 1;
        }
        r
    }

    fn cursor_index(&self) -> (r: usize)
        requires
            self.wf(),
        ensures
            r == self.cursor(),
            r <= self.buffer@.len(),
    {
        let chars = chars_of(self.buffer.as_str());
        let ghost k = self.cursor();
        let mut i: usize = 0;
        let mut at: usize = 0;
        assert(chars@.take(0) =~= Seq::<char>::empty());
        assert(cursor_at(chars@, k, self.cursor_byte as int));
        while at < self.cursor_byte
            invariant
                i <= k <= chars.len(),
                chars@ == self.buffer@,
                at == byte_len(chars@.take(i as int)),
                cursor_at(chars@, k, self.cursor_byte as int),
            decreases chars@.len() - i,
        {
            proof {
                if i == k {
                    assert(false);
                }
                assert(chars@.take(i + 1) =~= chars@.take(i as int).push(chars@[i as int]));
                lemma_byte_len_push(chars@.take(i as int), chars@[i as int]);
                lemma_byte_len_prefix(chars@, i + 1, k);
            }
            at = at + char_width(chars[i]);
            i = i + 1;
        }
        proof {
            lemma_byte_len_prefix(chars@, i as int, k);
        }
        i
    }

    fn bytes_before(&self, chars: &Vec<char>, k: usize) -> (r: usize)
        requires
            chars@ == self.buffer@,
            k <= chars@.len(),
        ensures
            r == byte_len(chars@.take(k as int)),
    {
        let head = string_of(chars, 0, k);
        assert(head@ =~= chars@.take(k as int));
        bytes_in(head.as_str())
    }
}

impl View for ComposerState {
    type V = ComposerView;

    open spec fn view(&self) -> ComposerView {
        ComposerView {
            text: self.buffer@,
            cursor: self.cursor(),
            scroll: self.scroll_line_offset as int,
            visible: self.max_visible_lines as int,
            preferred: self.preferred_column,
        }
    }
}

/// Makes every line end a line feed.
pub fn normalize_line_endings(input: &str) -> (r: String)
    ensures
        r@ == normalized(input@),
{
    proof {
        reveal_strlit("\r\n");
        reveal_strlit("\r");
    }
    let once = replace(input, "\r\n", "\n");
    replace(once.as_str(), "\r", "\n")
}

/// The cursor of a state, once a position is known that its byte offset stands at.
proof fn lemma_cursor(state: ComposerState, k: int)
    requires
        cursor_at(state.buffer@, k, state.cursor_byte as int),
    ensures
        state.wf(),
        state.cursor() == k,
{
    let c = state.cursor();
    assert(cursor_at(state.buffer@, c, state.cursor_byte as int));
    if c < k {
        lemma_byte_len_prefix(state.buffer@, c, k);
    }
    if k < c {
        lemma_byte_len_prefix(state.buffer@, k, c);
    }
}

proof fn lemma_line_mono(text: Seq<char>, i: int, j: int)
    requires
        0 <= i <= j,
    ensures
        0 <= line_at(text, i) <= line_at(text, j),
    decreases j,
{
    if i < j {
        lemma_line_mono(text, i, j - 1);
    } else if 0 < j {
        lemma_line_mono(text, i - 1, j - 1);
    }
}

proof fn lemma_same_line(text: Seq<char>, i: int, j: int)
    requires
        0 <= i <= j <= text.len(),
        line_begin(text, i) == i,
        forall|x: int| i <= x < j ==> text[x] != '\n',
    ensures
        line_at(text, j) == line_at(text, i),
        line_begin(text, j) == i,
    decreases j,
{
    if i < j {
        lemma_same_line(text, i, j - 1);
    }
}

/// There is only one such position.
pub proof fn lemma_spot(text: Seq<char>, k: int, line: int, col: int)
    requires
        placed(text, k, line, col),
    ensures
        spot(text, line, col) == k,
{
    let c = spot(text, line, col);
    assert(placed(text, c, line, col));
    if c < k {
        lemma_column_grows(text, c, k);
    }
    if k < c {
        lemma_column_grows(text, k, c);
    }
}

proof fn lemma_column_grows(text: Seq<char>, i: int, j: int)
    requires
        0 <= i < j <= text.len(),
        line_at(text, i) == line_at(text, j),
    ensures
        column_at(text, i) < column_at(text, j),
        text[i] != '\n',
    decreases j - i,
{
    lemma_line_mono(text, i, j - 1);
    if i < j - 1 {
        lemma_column_grows(text, i, j - 1);
    }
}

proof fn lemma_line_skip(text: Seq<char>, from: int, k: int)
    requires
        0 <= from <= k <= text.len(),
    ensures
        line_at(text, k) == line_at(text, from) + line_at(text.skip(from), k - from),
    decreases k - from,
{
    if from < k {
        lemma_line_skip(text, from, k - 1);
        assert(text.skip(from)[k - 1 - from] == text[k - 1]);
    }
}

proof fn lemma_split_count(text: Seq<char>)
    ensures
        crate::text::split(text, '\n').len() == line_at(text, text.len() as int) + 1,
    decreases text.len(),
{
    lemma_char_index(text, '\n');
    let k = char_index(text, '\n');
    lemma_same_line(text, 0, k);
    if k < text.len() {
        lemma_split_count(text.skip(k + 1));
        lemma_line_skip(text, k + 1, text.len() as int);
    }
}

/// Erasing right after typing a character gives back the text and the cursor.
pub proof fn erasing_undoes_typing(state: ComposerView, c: char)
    requires
        0 <= state.cursor <= state.text.len(),
    ensures
        state.inserted(seq![c]).erased().text == state.text,
        state.inserted(seq![c]).erased().cursor == state.cursor,
{
    let typed = state.inserted(seq![c]);
    assert(typed.text.remove(state.cursor) =~= state.text);
}

/// Going back one character after going on by one, or the other way round, gives back the
/// cursor and leaves the text alone.
pub proof fn moving_back_and_forth(state: ComposerView)
    requires
        0 <= state.cursor <= state.text.len(),
    ensures
        state.left().text == state.text,
        state.right().text == state.text,
        0 <= state.left().cursor <= state.right().cursor <= state.text.len(),
        state.cursor < state.text.len() ==> state.right().left().cursor == state.cursor,
        state.cursor > 0 ==> state.left().right().cursor == state.cursor,
{
}

/// Whatever was in view before, the cursor's line is in view once it has been shown.
pub proof fn cursor_is_in_view(state: ComposerView)
    ensures
        state.shown().scroll <= state.line(),
        state.line() < state.shown().scroll + (if state.visible < 1 {
            1
        } else {
            state.visible
        }),
{
}

/// Showing a cursor that is in view changes nothing.
pub proof fn showing_twice(state: ComposerView)
    ensures
        state.shown().shown() == state.shown(),
{
}

/// The lines of the text put together again, with a line feed between each two, are the text.
pub proof fn lines_make_up_the_text(text: Seq<char>)
    ensures
        crate::text::joined(crate::text::split(text, '\n'), seq!['\n']) == text,
    decreases text.len(),
{
    let k = char_index(text, '\n');
    lemma_char_index(text, '\n');
    if k < text.len() {
        let rest = text.skip(k + 1);
        lines_make_up_the_text(rest);
        lemma_split_count(rest);
        lemma_line_mono(rest, 0, rest.len() as int);
        lemma_joined_front(text.take(k), crate::text::split(rest, '\n'), seq!['\n']);
        assert(text.take(k) + seq!['\n'] + rest =~= text);
    }
}

proof fn lemma_joined_front(first: Seq<char>, rest: Seq<Seq<char>>, sep: Seq<char>)
    requires
        rest.len() > 0,
    ensures
        crate::text::joined(seq![first] + rest, sep) == first + sep + crate::text::joined(
            rest,
            sep,
        ),
    decreases rest.len(),
{
    let all = seq![first] + rest;
    assert(all.drop_last() =~= seq![first] + rest.drop_last());
    assert(all.last() == rest.last());
    if rest.len() == 1 {
        assert(all.drop_last() =~= seq![first]);
        assert(crate::text::joined(seq![first], sep) == first);
        assert(crate::text::joined(rest, sep) == rest[0]);
    } else {
        lemma_joined_front(first, rest.drop_last(), sep);
        assert(first + sep + crate::text::joined(rest.drop_last(), sep) + sep + rest.last() =~= first
            + sep + (crate::text::joined(rest.drop_last(), sep) + sep + rest.last()));
    }
}

/// No carriage return is left once the line ends are line feeds.
pub proof fn normalized_has_no_carriage_return(s: Seq<char>)
    ensures
        !normalized(s).contains('\r'),
{
    reveal_strlit("\r");
    reveal_strlit("\n");
    lemma_no_return(crate::text::replaced(s, "\r\n"@, "\n"@));
}

proof fn lemma_no_return(s: Seq<char>)
    ensures
        !crate::text::replaced(s, "\r"@, "\n"@).contains('\r'),
    decreases s.len(),
{
    reveal_strlit("\r");
    reveal_strlit("\n");
    let out = crate::text::replaced(s, "\r"@, "\n"@);
    if s.len() > 0 {
        let pre = crate::text::has_prefix(s, "\r"@);
        assert(s.subrange(0, 1)[0] == s[0]);
        if pre {
            lemma_no_return(s.skip(1));
            let rest = crate::text::replaced(s.skip(1), "\r"@, "\n"@);
            assert forall|i: int| 0 <= i < out.len() implies out[i] != '\r' by {
                if i > 0 {
                    assert(out[i] == rest[i - 1]);
                    assert(rest.contains(rest[i - 1]));
                }
            }
        } else {
            assert(s.subrange(0, 1) =~= seq![s[0]]);
            assert("\r"@ =~= seq!['\r']);
            lemma_no_return(s.drop_first());
            let rest = crate::text::replaced(s.drop_first(), "\r"@, "\n"@);
            assert forall|i: int| 0 <= i < out.len() implies out[i] != '\r' by {
                if i > 0 {
                    assert(out[i] == rest[i - 1]);
                    assert(rest.contains(rest[i - 1]));
                }
            }
        }
    }
}

/// Making line ends line feeds a second time changes nothing.
pub proof fn normalizing_twice(s: Seq<char>)
    ensures
        normalized(normalized(s)) == normalized(s),
{
    reveal_strlit("\r");
    reveal_strlit("\r\n");
    let once = normalized(s);
    normalized_has_no_carriage_return(s);
    lemma_nothing_to_replace(once, "\r\n"@, "\n"@);
    lemma_nothing_to_replace(once, "\r"@, "\n"@);
}

proof fn lemma_nothing_to_replace(s: Seq<char>, from: Seq<char>, to: Seq<char>)
    requires
        from.len() > 0,
        !s.contains(from[0]),
    ensures
        crate::text::replaced(s, from, to) == s,
    decreases s.len(),
{
    if s.len() > 0 {
        if crate::text::has_prefix(s, from) {
            assert(s.subrange(0, from.len() as int)[0] == s[0]);
            assert(s.contains(s[0]));
        }
        let rest = s.drop_first();
        assert forall|i: int| 0 <= i < rest.len() implies rest[i] != from[0] by {
            assert(s.contains(s[i + 1]));
        }
        lemma_nothing_to_replace(rest, from, to);
        assert(seq![s[0]] + rest =~= s);
    }
}

/// What is typed stands where the cursor was, and the cursor stands behind it. What was before and
/// behind the cursor stays.
pub proof fn typing_goes_in_at_the_cursor(state: ComposerView, s: Seq<char>)
    requires
        0 <= state.cursor <= state.text.len(),
    ensures
        ({
            let after = state.inserted(s);
            &&& after.text == state.text.take(state.cursor) + s + state.text.skip(state.cursor)
            &&& after.cursor == state.cursor + s.len()
            &&& after.visible == state.visible
            &&& after.preferred is None
        }),
{
}

/// Erasing takes the character before the cursor and no other; at the start it takes nothing.
pub proof fn erasing_takes_the_character_before(state: ComposerView)
    requires
        0 <= state.cursor <= state.text.len(),
    ensures
        state.cursor > 0 ==> state.erased().text == state.text.take(state.cursor - 1)
            + state.text.skip(state.cursor) && state.erased().cursor == state.cursor - 1
            && state.erased().preferred is None && state.erased().visible == state.visible,
        state.cursor == 0 ==> state.erased() == state,
{
    if state.cursor > 0 {
        assert(state.text.remove(state.cursor - 1) =~= state.text.take(state.cursor - 1)
            + state.text.skip(state.cursor));
    }
}

/// A line goes on to the next line feed: one character further is one column further on the same
/// line, or the start of the next.
pub proof fn lines_and_columns_count_on(text: Seq<char>, k: int)
    requires
        0 <= k < text.len(),
    ensures
        line_at(text, 0) == 0,
        column_at(text, 0) == 0,
        text[k] == '\n' ==> line_at(text, k + 1) == line_at(text, k) + 1 && column_at(text, k + 1)
            == 0,
        text[k] != '\n' ==> line_at(text, k + 1) == line_at(text, k) && column_at(text, k + 1)
            == column_at(text, k) + 1,
{
}

proof fn lemma_line_start(text: Seq<char>, n: int, line: int) -> (k: int)
    requires
        0 <= n <= text.len(),
        0 <= line <= line_at(text, n),
    ensures
        0 <= k <= n,
        line_at(text, k) == line,
        column_at(text, k) == 0,
    decreases n,
{
    if n <= 0 {
        0
    } else if line == line_at(text, n) && text[n - 1] == '\n' {
        n
    } else {
        lemma_line_start(text, n - 1, line)
    }
}

proof fn lemma_walk(text: Seq<char>, k: int, line: int, col: int) -> (r: int)
    requires
        0 <= k <= text.len(),
        line_at(text, k) == line,
        column_at(text, k) <= col,
    ensures
        placed(text, r, line, col),
    decreases text.len() - k,
{
    if column_at(text, k) == col || k == text.len() || text[k] == '\n' {
        k
    } else {
        lines_and_columns_count_on(text, k);
        lemma_walk(text, k + 1, line, col)
    }
}

proof fn lemma_begin_below(text: Seq<char>, k: int)
    requires
        0 <= k,
    ensures
        0 <= line_begin(text, k) <= k,
        line_at(text, k) >= 0,
    decreases k,
{
    if k > 0 {
        lemma_begin_below(text, k - 1);
    }
}

/// The cursor goes up by one line, to the column that it aims at or to the end of a shorter line; the
/// text stays, and so does what it aims at. From the first line it does not move.
pub proof fn up_is_the_line_before(state: ComposerView)
    requires
        0 <= state.cursor <= state.text.len() <= usize::MAX,
    ensures
        ({
            let after = state.raised();
            &&& state.line() == 0 ==> after == state
            &&& state.line() > 0 ==> {
                &&& after.text == state.text
                &&& 0 <= after.cursor <= state.text.len()
                &&& line_at(state.text, after.cursor) == line_at(state.text, state.cursor) - 1
                &&& column_at(state.text, after.cursor) <= state.aim()
                &&& column_at(state.text, after.cursor) == state.aim() || after.cursor
                    == state.text.len() || state.text[after.cursor] == '\n'
                &&& after.preferred == Some(state.aim() as usize)
                &&& after.visible == state.visible
            }
        }),
{
    lemma_begin_below(state.text, state.cursor);
    if state.line() > 0 {
        let k = lemma_line_start(state.text, state.cursor, state.line() - 1);
        let r = lemma_walk(state.text, k, state.line() - 1, state.aim());
        lemma_spot(state.text, r, state.line() - 1, state.aim());
    }
}

/// The cursor goes down by one line in the same way. From the last line it does not move.
pub proof fn down_is_the_line_behind(state: ComposerView)
    requires
        0 <= state.cursor <= state.text.len() <= usize::MAX,
    ensures
        ({
            let after = state.lowered();
            let last = line_at(state.text, state.text.len() as int);
            &&& line_at(state.text, state.cursor) >= last ==> after == state
            &&& line_at(state.text, state.cursor) < last ==> {
                &&& after.text == state.text
                &&& 0 <= after.cursor <= state.text.len()
                &&& line_at(state.text, after.cursor) == line_at(state.text, state.cursor) + 1
                &&& column_at(state.text, after.cursor) <= state.aim()
                &&& column_at(state.text, after.cursor) == state.aim() || after.cursor
                    == state.text.len() || state.text[after.cursor] == '\n'
                &&& after.preferred == Some(state.aim() as usize)
                &&& after.visible == state.visible
            }
        }),
{
    lemma_begin_below(state.text, state.cursor);
    if state.line() < state.last_line() {
        let k = lemma_line_start(state.text, state.text.len() as int, state.line() + 1);
        let r = lemma_walk(state.text, k, state.line() + 1, state.aim());
        lemma_spot(state.text, r, state.line() + 1, state.aim());
    }
}

/// The cursor aims at the column that it was in when it began to go up or down.
pub proof fn the_cursor_aims_at_its_column(state: ComposerView)
    ensures
        state.preferred matches Some(col) ==> state.aim() == col,
        state.preferred is None ==> state.aim() == column_at(state.text, state.cursor),
        state.line() == line_at(state.text, state.cursor),
        state.column() == column_at(state.text, state.cursor),
        state.last_line() == line_at(state.text, state.text.len() as int),
{
}

/// A step to the side is one character, forgets the column that was aimed at and leaves the text.
pub proof fn steps_are_one_character(state: ComposerView)
    requires
        0 <= state.cursor <= state.text.len(),
    ensures
        state.cursor > 0 ==> state.left().cursor == state.cursor - 1 && state.left().preferred is None
            && state.left().text == state.text,
        state.cursor == 0 ==> state.left() == state,
        state.cursor < state.text.len() ==> state.right().cursor == state.cursor + 1
            && state.right().preferred is None && state.right().text == state.text,
        state.cursor == state.text.len() ==> state.right() == state,
{
}

/// Nothing is left of what was sent but the size of the window.
pub proof fn sending_empties_the_input(state: ComposerView)
    ensures
        state.emptied().text.len() == 0,
        state.emptied().cursor == 0,
        state.emptied().scroll == 0,
        state.emptied().preferred is None,
        state.emptied().visible == state.visible,
{
}

/// The lines only move as far as needed: not at all while the line is in view, and else so that it
/// is the first or the last that is.
pub proof fn scrolling_is_as_little_as_needed(scroll: int, line: int, visible: int)
    requires
        visible >= 1,
    ensures
        scroll <= line < scroll + visible ==> scrolled(scroll, line, visible) == scroll,
        line < scroll ==> scrolled(scroll, line, visible) == line,
        line >= scroll + visible ==> scrolled(scroll, line, visible) + visible == line + 1,
{
}

proof fn lemma_replaced_step(s: Seq<char>, from: Seq<char>, to: Seq<char>)
    requires
        s.len() > 0,
        from.len() > 0,
    ensures
        crate::text::has_prefix(s, from) ==> crate::text::replaced(s, from, to) == to
            + crate::text::replaced(s.skip(from.len() as int), from, to),
        !crate::text::has_prefix(s, from) ==> crate::text::replaced(s, from, to) == seq![s[0]]
            + crate::text::replaced(s.drop_first(), from, to),
{
}

/// A carriage return, with the line feed behind it if there is one, becomes a line feed. All other
/// characters stay.
pub proof fn line_ends_become_line_feeds(c: char, s: Seq<char>)
    ensures
        normalized(Seq::empty()) == Seq::<char>::empty(),
        c != '\r' ==> normalized(seq![c] + s) == seq![c] + normalized(s),
        c == '\r' && s.len() > 0 && s[0] == '\n' ==> normalized(seq![c] + s) == normalized(s),
        c == '\r' && (s.len() == 0 || s[0] != '\n') ==> normalized(seq![c] + s) == seq!['\n']
            + normalized(s),
{
    reveal_strlit("\r\n");
    reveal_strlit("\n");
    reveal_strlit("\r");
    let crlf = "\r\n"@;
    let lf = "\n"@;
    let cr = "\r"@;
    assert(lf =~= seq!['\n']);
    assert(cr =~= seq!['\r']);
    assert(crlf =~= seq!['\r', '\n']);
    let whole = seq![c] + s;
    assert(whole.drop_first() =~= s);
    let inner = crate::text::replaced(s, crlf, lf);
    lemma_replaced_step(whole, crlf, lf);
    if c == '\r' && s.len() > 0 && s[0] == '\n' {
        assert(whole.subrange(0, 2) =~= crlf);
        assert(whole.skip(2) =~= s.drop_first());
        lemma_replaced_step(s, crlf, lf);
        if crate::text::has_prefix(s, crlf) {
            assert(s.subrange(0, 2)[0] == s[0]);
        }
        assert(crate::text::replaced(whole, crlf, lf) =~= inner);
    } else {
        if crate::text::has_prefix(whole, crlf) {
            assert(whole.subrange(0, 2)[0] == whole[0]);
            assert(whole.subrange(0, 2)[1] == whole[1]);
            assert(whole[1] == s[0]);
        }
        let outer = seq![c] + inner;
        assert(crate::text::replaced(whole, crlf, lf) == outer);
        assert(outer.drop_first() =~= inner);
        lemma_replaced_step(outer, cr, lf);
        if c == '\r' {
            assert(outer.subrange(0, 1) =~= cr);
            assert(outer.skip(1) =~= inner);
        } else if crate::text::has_prefix(outer, cr) {
            assert(outer.subrange(0, 1)[0] == outer[0]);
        }
    }
}

} // verus!

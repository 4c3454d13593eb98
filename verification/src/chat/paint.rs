//! Styled text: what the terminal is asked to draw.

use vstd::prelude::*;
use crate::text::{blanks, padded, pad, spaces, cat3};

verus! {

#[derive(Debug, Clone, Copy, PartialEq, Eq, Structural)]
pub enum Color {
    Red,
    Green,
    Yellow,
    Blue,
    Magenta,
    Cyan,
    Gray,
    DarkGray,
    LightYellow,
    White,
    Rgb(u8, u8, u8),
}

#[derive(Debug, Clone, Copy, PartialEq, Eq, Structural)]
pub struct Style {
    pub fg: Option<Color>,
    pub bg: Option<Color>,
    pub bold: bool,
}

/// No style at all.
#[verifier::allow_in_spec]
pub fn plain() -> Style
    returns
        (Style { fg: None, bg: None, bold: false }),
{
    Style { fg: None, bg: None, bold: false }
}

/// Text in a color.
#[verifier::allow_in_spec]
pub fn ink(color: Color) -> Style
    returns
        (Style { fg: Some(color), bg: None, bold: false }),
{
    Style { fg: Some(color), bg: None, bold: false }
}

/// Text in a color on another.
#[verifier::allow_in_spec]
pub fn on(color: Color, back: Color) -> Style
    returns
        (Style { fg: Some(color), bg: Some(back), bold: false }),
{
    Style { fg: Some(color), bg: Some(back), bold: false }
}

/// A style, in bold.
#[verifier::allow_in_spec]
pub fn bold(style: Style) -> Style
    returns
        (Style { fg: style.fg, bg: style.bg, bold: true }),
{
    Style { fg: style.fg, bg: style.bg, bold: true }
}

/// A piece of text in one style.
#[derive(Debug)]
pub struct Span {
    pub content: String,
    pub style: Style,
}

/// A row of spans, with a style under theirs.
#[derive(Debug)]
pub struct Line {
    pub style: Style,
    pub spans: Vec<Span>,
}

#[verifier::ext_equal]
pub struct SpanView {
    pub content: Seq<char>,
    pub style: Style,
}

#[verifier::ext_equal]
pub struct LineView {
    pub style: Style,
    pub spans: Seq<SpanView>,
}

/// A piece of text in one style.
pub open spec fn piece(content: Seq<char>, style: Style) -> SpanView {
    SpanView { content, style }
}

/// A row of spans.
pub open spec fn row(spans: Seq<SpanView>) -> LineView {
    LineView { style: plain(), spans }
}

impl View for Span {
    type V = SpanView;

    open spec fn view(&self) -> SpanView {
        SpanView { content: self.content@, style: self.style }
    }
}

/// The spans of a row.
pub open spec fn span_views(spans: Seq<Span>) -> Seq<SpanView> {
    Seq::new(spans.len(), |i: int| spans[i]@)
}

impl View for Line {
    type V = LineView;

    open spec fn view(&self) -> LineView {
        LineView { style: self.style, spans: span_views(self.spans@) }
    }
}

/// The lines of a drawing.
pub open spec fn line_views(lines: Seq<Line>) -> Seq<LineView> {
    Seq::new(lines.len(), |i: int| lines[i]@)
}

/// A piece of text in one style.
pub fn span(content: &str, style: Style) -> (r: Span)
    ensures
        r@ == piece(content@, style),
{
    Span { content: content.to_owned(), style }
}

/// A piece of text without a style.
pub fn raw(content: &str) -> (r: Span)
    ensures
        r@ == piece(content@, plain()),
{
    span(content, plain())
}

/// A row with nothing in it.
pub fn line0() -> (r: Line)
    ensures
        r@ == row(seq![]),
{
    let r = Line { style: plain(), spans: Vec::new() };
    assert(r@.spans =~= seq![]);
    r
}

/// A row of one span.
pub fn line1(a: Span) -> (r: Line)
    ensures
        r@ == row(seq![a@]),
{
    let r = Line { style: plain(), spans: vec![a] };
    assert(r@.spans =~= seq![a@]);
    r
}

/// A row of two spans.
pub fn line2(a: Span, b: Span) -> (r: Line)
    ensures
        r@ == row(seq![a@, b@]),
{
    let r = Line { style: plain(), spans: vec![a, b] };
    assert(r@.spans =~= seq![a@, b@]);
    r
}

/// A row of three spans.
pub fn line3(a: Span, b: Span, c: Span) -> (r: Line)
    ensures
        r@ == row(seq![a@, b@, c@]),
{
    let r = Line { style: plain(), spans: vec![a, b, c] };
    assert(r@.spans =~= seq![a@, b@, c@]);
    r
}

/// A row with one span more.
pub fn widen(line: Line, a: Span) -> (r: Line)
    ensures
        r@ == (LineView { style: line@.style, spans: line@.spans.push(a@) }),
{
    let mut r = line;
    let ghost before = r@.spans;
    r.spans.push(a);
    assert(r@.spans =~= before.push(a@));
    r
}

/// Puts a row under those that are there.
pub fn put_line(lines: &mut Vec<Line>, line: Line)
    ensures
        line_views(final(lines)@) == line_views(old(lines)@).push(line@),
{
    let ghost before = line_views(lines@);
    lines.push(line);
    assert(line_views(lines@) =~= before.push(line@));
}

/// Puts a list of rows under those that are there.
pub fn put_lines(lines: &mut Vec<Line>, more: Vec<Line>)
    ensures
        line_views(final(lines)@) == line_views(old(lines)@) + line_views(more@),
{
    let ghost before = line_views(lines@);
    let ghost added = line_views(more@);
    let mut rest = more;
    lines.append(&mut rest);
    assert(line_views(lines@) =~= before + added);
}

/// A label on a colored chip.
pub open spec fn chip(label: Seq<char>, style: Style) -> SpanView {
    piece(" "@ + label + " "@, style)
}

/// A label on a colored chip.
pub fn badge_chip(label: &str, style: Style) -> (r: Span)
    ensures
        r@ == chip(label@, style),
{
    Span { content: cat3(" ", label, " "), style }
}

/// The head of a section.
pub open spec fn header_row(title: Seq<char>) -> LineView {
    row(seq![piece("["@ + title + "]"@, bold(ink(Color::Gray)))])
}

/// The head of a section.
pub fn section_header(title: &str) -> (r: Line)
    ensures
        r@ == header_row(title@),
{
    line1(Span { content: cat3("[", title, "]"), style: bold(ink(Color::Gray)) })
}

/// A label and its value, the label filled up to ten characters.
pub open spec fn pair_row(label: Seq<char>, value: Seq<char>) -> LineView {
    row(
        seq![
            piece(padded(label, 10), ink(Color::DarkGray)),
            piece(": "@, ink(Color::DarkGray)),
            piece(value, ink(Color::White)),
        ],
    )
}

/// A label and its value, the label filled up to ten characters.
pub fn kv_row(label: &str, value: &str) -> (r: Line)
    ensures
        r@ == pair_row(label@, value@),
{
    line3(
        Span { content: pad(label, 10), style: ink(Color::DarkGray) },
        span(": ", ink(Color::DarkGray)),
        span(value, ink(Color::White)),
    )
}

// ---- width -------------------------------------------------------------------------------

/// The number of columns that a text takes up in a terminal, as `ratatui` measures it.
pub uninterp spec fn text_width(s: Seq<char>) -> nat;

/// `ratatui::text::Span::width`: it depends on the characters alone. A space takes up one column,
/// and so does a bar.
#[verifier::external_body]
pub(crate) fn width(s: &str) -> (r: usize)
    ensures
        r == text_width(s@),
        s@ == blanks(s@.len()) ==> r == s@.len(),
        s@ == "┃"@ ==> r == 1,
{
    ratatui::text::Span::raw(s).width()
}

/// The number of columns that a row of spans takes up.
pub open spec fn row_width(spans: Seq<SpanView>) -> nat
    decreases spans.len(),
{
    if spans.len() == 0 {
        0
    } else {
        row_width(spans.drop_last()) + text_width(spans.last().content)
    }
}

/// Rows side by side take up the columns of both.
pub proof fn lemma_row_width_add(a: Seq<SpanView>, b: Seq<SpanView>)
    ensures
        row_width(a + b) == row_width(a) + row_width(b),
    decreases b.len(),
{
    if b.len() == 0 {
        assert(a + b =~= a);
    } else {
        lemma_row_width_add(a, b.drop_last());
        assert((a + b).drop_last() =~= a + b.drop_last());
    }
}

/// The columns that a row leaves free of `limit`.
pub fn columns_left(spans: &Vec<Span>, limit: usize) -> (r: usize)
    ensures
        r == (if row_width(span_views(spans@)) < limit {
            limit - row_width(span_views(spans@))
        } else {
            0
        }),
{
    let ghost all = span_views(spans@);
    let mut left: usize = limit;
    let mut i: usize = 0;
    assert(all.take(0) =~= seq![]);
    while i < spans.len()
        invariant
            i <= spans@.len(),
            all == span_views(spans@),
            left == (if row_width(all.take(i as int)) < limit {
                limit - row_width(all.take(i as int))
            } else {
                0
            }),
        decreases spans@.len() - i,
    {
        let w = width(spans[i].content.as_str());
        proof {
            let next = all.take(i + 1);
            assert(next.drop_last() =~= all.take(i as int));
            assert(next.last() == spans@[i as int]@);
        }
        left = if w < left {
            left - w
        } else {
            0
        };
        i = i + 1;
    }
    assert(all.take(i as int) =~= all);
    left
}

/// A row with spaces at its end, in a style, up to `limit` columns.
pub open spec fn filled(line: LineView, limit: int, style: Style) -> LineView {
    if row_width(line.spans) < limit {
        LineView {
            style: line.style,
            spans: line.spans.push(piece(blanks((limit - row_width(line.spans)) as nat), style)),
        }
    } else {
        line
    }
}

/// A row with spaces at its end, in a style, up to `limit` columns. It is at least as wide as that.
pub fn fill(line: Line, limit: usize, style: Style) -> (r: Line)
    ensures
        r@ == filled(line@, limit as int, style),
        row_width(r@.spans) >= limit,
{
    let padding = spaces(columns_left(&line.spans, limit));
    if width(padding.as_str()) > 0 {
        let r = widen(line, Span { content: padding, style });
        assert(r@.spans.drop_last() =~= line@.spans);
        r
    } else {
        line
    }
}

/// What rows of each kind say: a badge stands between spaces, a title in brackets, and a label is
/// padded to ten columns with its value behind a colon.
pub proof fn rows_say_what_they_are_given(
    label: Seq<char>,
    value: Seq<char>,
    style: Style,
    spans: Seq<SpanView>,
)
    ensures
        chip(label, style).content == " "@ + label + " "@,
        chip(label, style).style == style,
        header_row(label).spans.len() == 1,
        header_row(label).spans[0].content == "["@ + label + "]"@,
        header_row(label).spans[0].style == bold(ink(Color::Gray)),
        pair_row(label, value).spans.len() == 3,
        pair_row(label, value).spans[0].content == padded(label, 10),
        pair_row(label, value).spans[1].content == ": "@,
        pair_row(label, value).spans[2].content == value,
        pair_row(label, value).spans[2].style == ink(Color::White),
        piece(value, style).content == value,
        piece(value, style).style == style,
        row(spans).spans == spans,
        row(spans).style == plain(),
{
}

/// A row is filled up with spaces to the limit, in the given style, and is left as it is where it
/// reaches it. What it says stays.
pub proof fn filling_adds_only_spaces(line: LineView, limit: int, style: Style)
    ensures
        filled(line, limit, style).style == line.style,
        line.spans.is_prefix_of(filled(line, limit, style).spans),
        row_width(line.spans) >= limit ==> filled(line, limit, style) == line,
        row_width(line.spans) < limit ==> filled(line, limit, style).spans.len() == line.spans.len()
            + 1 && filled(line, limit, style).spans.last().style == style && filled(
            line,
            limit,
            style,
        ).spans.last().content == blanks((limit - row_width(line.spans)) as nat),
{
}

} // verus!

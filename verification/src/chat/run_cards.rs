//! The cards of the plain chat, which has a thread for each delegated run.

use vstd::prelude::*;
use crate::chat::paint::{
    bold, ink, line0, line1, line2, line3, line_views, on, piece, plain, put_line, put_lines, raw,
    row, span, widen, Color, Line, LineView, Style,
};
use crate::chat::preview::{
    collapsible, preview, pretty_json_lines, short_id, text_is_collapsible, text_preview_lines,
};
use crate::chat::timeline::MessageRoleTag;
use crate::json;
use crate::json::{pretty_text, Json, JsonTree};
use crate::rpc::{DelegatedRun, OrchestratorThreadMessage, OrchestratorToolInvocation};
use crate::text::{
    ascii_lower, cat, cat3, chars_of, clipped, has_prefix, is_white, lines, lines_of, opt_view,
    same, string_of, strip_prefix, to_ascii_lower, trim_start, views, white,
};

verus! {

impl MessageRoleTag {
    /// The role that a word stands for. Any other word stands for the assistant.
    pub open spec fn of_word(word: Seq<char>) -> MessageRoleTag {
        if word == "system"@ {
            MessageRoleTag::System
        } else if word == "user"@ {
            MessageRoleTag::User
        } else {
            MessageRoleTag::Assistant
        }
    }

    /// The role that a word stands for.
    pub fn from_wire_role(role: &str) -> (r: MessageRoleTag)
        ensures
            r == MessageRoleTag::of_word(role@),
    {
        if same(role, "system") {
            MessageRoleTag::System
        } else if same(role, "user") {
            MessageRoleTag::User
        } else {
            MessageRoleTag::Assistant
        }
    }

    /// The style of a role's name.
    #[verifier::allow_in_spec]
    pub fn badge_style(self) -> Style
        returns
            (match self {
                MessageRoleTag::System => ink(Color::Cyan),
                MessageRoleTag::User => ink(Color::Green),
                MessageRoleTag::Assistant => ink(Color::Blue),
            }),
    {
        match self {
            MessageRoleTag::System => ink(Color::Cyan),
            MessageRoleTag::User => ink(Color::Green),
            MessageRoleTag::Assistant => ink(Color::Blue),
        }
    }
}

/// A card: a message or a tool call.
#[derive(Debug)]
pub enum RunItem {
    Text { role: MessageRoleTag, text: String, expanded: bool },
    ToolInvocation {
        call_id: String,
        tool_id: String,
        status: String,
        arguments: Json,
        output: Json,
        expanded: bool,
    },
}

/// What a card holds.
pub enum RunItemView {
    Text { role: MessageRoleTag, text: Seq<char>, expanded: bool },
    Tool {
        call_id: Seq<char>,
        tool_id: Seq<char>,
        status: Seq<char>,
        arguments: JsonTree,
        output: JsonTree,
        expanded: bool,
    },
}

impl View for RunItem {
    type V = RunItemView;

    open spec fn view(&self) -> RunItemView {
        match *self {
            RunItem::Text { role, text, expanded } => RunItemView::Text {
                role,
                text: text@,
                expanded,
            },
            RunItem::ToolInvocation { call_id, tool_id, status, arguments, output, expanded } => {
                RunItemView::Tool {
                    call_id: call_id@,
                    tool_id: tool_id@,
                    status: status@,
                    arguments: arguments@,
                    output: output@,
                    expanded,
                }
            },
        }
    }
}

/// The cards of a list.
pub open spec fn run_item_views(items: Seq<RunItem>) -> Seq<RunItemView> {
    Seq::new(items.len(), |i: int| items[i]@)
}

/// A message. One that is long enough starts out folded up.
pub open spec fn told(role: MessageRoleTag, text: Seq<char>) -> RunItemView {
    RunItemView::Text { role, text, expanded: !collapsible(text) }
}

// ---- drawing -----------------------------------------------------------------------------

/// A card as it is drawn.
#[derive(Debug)]
pub struct ListItem {
    pub lines: Vec<Line>,
    pub style: Style,
}

/// The style of a card, under the styles of its rows.
pub open spec fn card_style(selected: bool) -> Style {
    if selected {
        bold(on(Color::White, Color::DarkGray))
    } else {
        plain()
    }
}

/// The style that the state of a call or a run is drawn in.
pub open spec fn state_ink(status: Seq<char>) -> Style {
    if status == "success"@ || status == "completed"@ {
        ink(Color::Green)
    } else if status == "error"@ || status == "failed"@ {
        ink(Color::Red)
    } else if status == "running"@ {
        ink(Color::Yellow)
    } else {
        ink(Color::Gray)
    }
}

/// The style that the state of a call or a run is drawn in.
pub fn state_style(status: &str) -> (r: Style)
    ensures
        r == state_ink(status@),
{
    if same(status, "success") || same(status, "completed") {
        ink(Color::Green)
    } else if same(status, "error") || same(status, "failed") {
        ink(Color::Red)
    } else if same(status, "running") {
        ink(Color::Yellow)
    } else {
        ink(Color::Gray)
    }
}

/// Rows of plain text, each behind the same indent.
pub open spec fn indented(list: Seq<Seq<char>>, indent: Seq<char>) -> Seq<LineView> {
    list.map_values(|line: Seq<char>| row(seq![piece(indent + line, plain())]))
}

fn indent_lines(list: &Vec<String>, from: usize, indent: &str) -> (r: Vec<Line>)
    requires
        from <= list@.len(),
    ensures
        line_views(r@) == indented(views(list@).skip(from as int), indent@),
{
    let ghost all = views(list@).skip(from as int);
    let ghost want = indented(all, indent@);
    let mut r: Vec<Line> = Vec::new();
    let mut i: usize = from;
    assert(line_views(r@) =~= want.take(0));
    while i < list.len()
        invariant
            from <= i <= list@.len(),
            all == views(list@).skip(from as int),
            want == indented(all, indent@),
            line_views(r@) == want.take(i - from),
        decreases list@.len() - i,
    {
        let content = cat(indent, list[i].as_str());
        put_line(&mut r, line1(raw(content.as_str())));
        assert(all[i - from] == list@[i as int]@);
        assert(line_views(r@) =~= want.take(i + 1 - from));
        i = i + 1;
    }
    assert(want.take(i - from) =~= want);
    r
}

/// The lines of a message that are drawn.
pub open spec fn shown_lines(text: Seq<char>, expanded: bool) -> Seq<Seq<char>> {
    if expanded || !collapsible(text) {
        lines(text)
    } else {
        preview(text, 3, 220)
    }
}

/// The rows of a message: its first line beside the role, the others under it, and what the space
/// bar does where it does anything.
pub open spec fn message_rows(role: MessageRoleTag, text: Seq<char>, expanded: bool) -> Seq<
    LineView,
> {
    let list = shown_lines(text, expanded);
    let first = if list.len() > 0 {
        list[0]
    } else {
        Seq::empty()
    };
    let rest = if list.len() > 0 {
        list.skip(1)
    } else {
        list
    };
    let head = row(
        seq![
            piece("["@ + role.name() + "] "@, bold(role.badge_style())),
            piece(first, plain()),
        ],
    );
    let hint = if expanded {
        "           [expanded] Space to collapse"@
    } else {
        "           [collapsed] Space to expand"@
    };
    seq![head] + indented(rest, "           "@) + (if collapsible(text) {
        seq![row(seq![piece(hint, ink(Color::DarkGray))])]
    } else {
        seq![]
    }) + seq![row(seq![])]
}

/// The rows of a tool call.
pub open spec fn call_rows(
    call_id: Seq<char>,
    tool_id: Seq<char>,
    status: Seq<char>,
    arguments: JsonTree,
    output: JsonTree,
    expanded: bool,
) -> Seq<LineView> {
    let head = row(
        seq![
            piece("[TOOL] "@, bold(ink(Color::Yellow))),
            piece(tool_id, ink(Color::LightYellow)),
            piece(" "@, plain()),
            piece("status="@, plain()),
            piece(status, state_ink(status)),
            piece(
                if expanded {
                    " [expanded]"@
                } else {
                    " [collapsed]"@
                },
                ink(Color::DarkGray),
            ),
        ],
    );
    let details = if expanded {
        seq![
            row(
                seq![
                    piece("  call id: "@, ink(Color::DarkGray)),
                    piece(call_id, ink(Color::DarkGray)),
                ],
            ),
            row(seq![piece("  arguments:"@, ink(Color::Gray))]),
        ] + indented(lines(pretty_text(arguments)), "    "@) + seq![
            row(seq![piece("  output:"@, ink(Color::Gray))]),
        ] + indented(lines(pretty_text(output)), "    "@)
    } else {
        seq![]
    };
    seq![head] + details + seq![row(seq![])]
}

/// The rows of a card.
pub open spec fn card_rows(item: RunItemView) -> Seq<LineView> {
    match item {
        RunItemView::Text { role, text, expanded } => message_rows(role, text, expanded),
        RunItemView::Tool { call_id, tool_id, status, arguments, output, expanded } => call_rows(
            call_id,
            tool_id,
            status,
            arguments,
            output,
            expanded,
        ),
    }
}

fn message_lines(role: MessageRoleTag, text: &str, expanded: bool) -> (r: Vec<Line>)
    ensures
        line_views(r@) == message_rows(role, text@, expanded),
{
    let long = text_is_collapsible(text);
    let list = if expanded || !long {
        lines_of(text)
    } else {
        text_preview_lines(text, 3, 220)
    };
    let ghost shown = views(list@);
    assert(shown == shown_lines(text@, expanded));
    let badge = cat3("[", role.label(), "] ");
    let first = if list.len() > 0 {
        assert(shown[0] == list@[0]@);
        list[0].clone()
    } else {
        String::new()
    };
    let from: usize = if list.len() > 0 {
        1
    } else {
        0
    };
    let mut r: Vec<Line> = Vec::new();
    put_line(
        &mut r,
        line2(span(badge.as_str(), bold(role.badge_style())), raw(first.as_str())),
    );
    let ghost head = line_views(r@);
    proof {
        assert(head.len() == 1);
        assert(shown.len() == list@.len());
        if list@.len() == 0 {
            assert(shown.skip(0) =~= shown);
            assert(first@ =~= Seq::<char>::empty());
        }
    }
    put_lines(&mut r, indent_lines(&list, from, "           "));
    if long {
        let hint = if expanded {
            "           [expanded] Space to collapse"
        } else {
            "           [collapsed] Space to expand"
        };
        put_line(&mut r, line1(span(hint, ink(Color::DarkGray))));
    }
    put_line(&mut r, line0());
    assert(line_views(r@) =~= message_rows(role, text@, expanded));
    r
}

fn call_lines(
    call_id: &str,
    tool_id: &str,
    status: &str,
    arguments: &Json,
    output: &Json,
    expanded: bool,
) -> (r: Vec<Line>)
    ensures
        line_views(r@) == call_rows(call_id@, tool_id@, status@, arguments@, output@, expanded),
{
    let mut r: Vec<Line> = Vec::new();
    let three = line3(
        span("[TOOL] ", bold(ink(Color::Yellow))),
        span(tool_id, ink(Color::LightYellow)),
        raw(" "),
    );
    let five = widen(widen(three, raw("status=")), span(status, state_style(status)));
    let fold = if expanded {
        " [expanded]"
    } else {
        " [collapsed]"
    };
    let head = widen(five, span(fold, ink(Color::DarkGray)));
    assert(head@ =~= row(
        seq![
            piece("[TOOL] "@, bold(ink(Color::Yellow))),
            piece(tool_id@, ink(Color::LightYellow)),
            piece(" "@, plain()),
            piece("status="@, plain()),
            piece(status@, state_ink(status@)),
            piece(fold@, ink(Color::DarkGray)),
        ],
    ));
    put_line(&mut r, head);
    if expanded {
        put_line(
            &mut r,
            line2(span("  call id: ", ink(Color::DarkGray)), span(call_id, ink(Color::DarkGray))),
        );
        put_line(&mut r, line1(span("  arguments:", ink(Color::Gray))));
        let given = pretty_json_lines(arguments);
        assert(views(given@).skip(0) =~= views(given@));
        put_lines(&mut r, indent_lines(&given, 0, "    "));
        put_line(&mut r, line1(span("  output:", ink(Color::Gray))));
        let back = pretty_json_lines(output);
        assert(views(back@).skip(0) =~= views(back@));
        put_lines(&mut r, indent_lines(&back, 0, "    "));
    }
    put_line(&mut r, line0());
    assert(line_views(r@) =~= call_rows(
        call_id@,
        tool_id@,
        status@,
        arguments@,
        output@,
        expanded,
    ));
    r
}

// ---- links -------------------------------------------------------------------------------

/// The number of characters before the first white space.
pub open spec fn word_end(s: Seq<char>) -> int
    decreases s.len(),
{
    if s.len() == 0 || white(s[0]) {
        0
    } else {
        1 + word_end(s.drop_first())
    }
}

/// The first word of a text.
pub open spec fn first_word(s: Seq<char>) -> Option<Seq<char>> {
    let t = trim_start(s);
    if t.len() == 0 {
        None
    } else {
        Some(t.take(word_end(t)))
    }
}

/// The first word of a text.
pub fn head_word(s: &str) -> (r: Option<String>)
    ensures
        opt_view(r) == first_word(s@),
{
    let chars = chars_of(s);
    let mut from: usize = 0;
    assert(chars@.skip(0) =~= chars@);
    while from < chars.len() && is_white(chars[from])
        invariant
            from <= chars@.len(),
            trim_start(chars@) == trim_start(chars@.skip(from as int)),
        decreases chars@.len() - from,
    {
        assert(chars@.skip(from as int).drop_first() =~= chars@.skip(from + 1));
        from = from + 1;
    }
    let ghost rest = chars@.skip(from as int);
    assert(trim_start(chars@) == rest);
    if from == chars.len() {
        return None;
    }
    let mut to: usize = from;
    assert(rest.skip(0) =~= rest);
    while to < chars.len() && !is_white(chars[to])
        invariant
            from <= to <= chars@.len(),
            rest == chars@.skip(from as int),
            word_end(rest) == to - from + word_end(rest.skip(to - from)),
        decreases chars@.len() - to,
    {
        assert(rest.skip(to - from)[0] == chars@[to as int]);
        assert(rest.skip(to - from).drop_first() =~= rest.skip(to + 1 - from));
        to = to + 1;
    }
    if to < chars.len() {
        assert(rest.skip(to - from)[0] == chars@[to as int]);
    }
    let r = string_of(&chars, from, to);
    assert(r@ =~= rest.take(to - from));
    Some(r)
}

/// The run that a message tells of.
pub open spec fn run_in(text: Seq<char>) -> Option<Seq<char>> {
    if has_prefix(text, "delegated run "@) {
        first_word(text.skip("delegated run "@.len() as int))
    } else {
        None
    }
}

/// The run that a message tells of.
pub fn parse_run_id_from_text(text: &str) -> (r: Option<String>)
    ensures
        opt_view(r) == run_in(text@),
{
    match strip_prefix(text, "delegated run ") {
        Some(rest) => head_word(rest.as_str()),
        None => None,
    }
}

/// The run that a card leads to.
pub open spec fn run_link(item: RunItemView) -> Option<Seq<char>> {
    match item {
        RunItemView::Text { text, .. } => run_in(text),
        RunItemView::Tool { output, .. } => output.field_text("run_id"@),
    }
}

// ---- cards -------------------------------------------------------------------------------

/// A card can be folded up and opened.
pub open spec fn run_foldable(item: RunItemView) -> bool {
    match item {
        RunItemView::Text { text, .. } => collapsible(text),
        RunItemView::Tool { .. } => true,
    }
}

/// A card folded up or opened, if it can be.
pub open spec fn run_flipped(item: RunItemView) -> RunItemView {
    match item {
        RunItemView::Text { role, text, expanded } => RunItemView::Text {
            role,
            text,
            expanded: if collapsible(text) {
                !expanded
            } else {
                expanded
            },
        },
        RunItemView::Tool { call_id, tool_id, status, arguments, output, expanded } => {
            RunItemView::Tool { call_id, tool_id, status, arguments, output, expanded: !expanded }
        },
    }
}

/// A card as a document.
pub open spec fn run_snapshot(item: RunItemView) -> JsonTree {
    match item {
        RunItemView::Text { role, text, .. } => JsonTree::no_fields().with(
            "role"@,
            JsonTree::Text(ascii_lower(role.name())),
        ).with("type"@, JsonTree::Text("text"@)).with("content"@, JsonTree::Text(text)),
        RunItemView::Tool { call_id, tool_id, status, arguments, output, .. } => {
            JsonTree::no_fields().with("role"@, JsonTree::Text("tool"@)).with(
                "type"@,
                JsonTree::Text("tool_invocation"@),
            ).with("call_id"@, JsonTree::Text(call_id)).with("tool_id"@, JsonTree::Text(tool_id)).with(
                "status"@,
                JsonTree::Text(status),
            ).with("arguments"@, arguments).with("output"@, output)
        },
    }
}

impl RunItem {
    /// A message. One that is long enough starts out folded up.
    pub fn text(role: MessageRoleTag, text: String) -> (r: RunItem)
        ensures
            r@ == told(role, text@),
    {
        let expanded = !text_is_collapsible(text.as_str());
        RunItem::Text { role, text, expanded }
    }

    /// The card as it is drawn.
    pub fn to_list_item(&self, selected: bool) -> (r: ListItem)
        ensures
            line_views(r.lines@) == card_rows(self@),
            r.style == card_style(selected),
    {
        let style = if selected {
            bold(on(Color::White, Color::DarkGray))
        } else {
            plain()
        };
        let lines = match self {
            RunItem::Text { role, text, expanded } => message_lines(*role, text.as_str(), *expanded),
            RunItem::ToolInvocation { call_id, tool_id, status, arguments, output, expanded } => {
                call_lines(
                    call_id.as_str(),
                    tool_id.as_str(),
                    status.as_str(),
                    arguments,
                    output,
                    *expanded,
                )
            },
        };
        ListItem { lines, style }
    }

    /// The card as a document.
    pub fn to_snapshot_value(&self) -> (r: Json)
        ensures
            r@ == run_snapshot(self@),
    {
        match self {
            RunItem::Text { role, text, .. } => Json::no_fields().with(
                "role",
                Json::Text(to_ascii_lower(role.label())),
            ).with("type", json::text("text")).with("content", json::text(text.as_str())),
            RunItem::ToolInvocation { call_id, tool_id, status, arguments, output, .. } => {
                Json::no_fields().with("role", json::text("tool")).with(
                    "type",
                    json::text("tool_invocation"),
                ).with("call_id", json::text(call_id.as_str())).with(
                    "tool_id",
                    json::text(tool_id.as_str()),
                ).with("status", json::text(status.as_str())).with(
                    "arguments",
                    arguments.copy(),
                ).with("output", output.copy())
            },
        }
    }

    /// Folds the card up or opens it, if it can be.
    pub fn toggle(&mut self)
        ensures
            final(self)@ == run_flipped(old(self)@),
    {
        match self {
            RunItem::Text { text, expanded, .. } => {
                if text_is_collapsible(text.as_str()) {
                    *expanded = !*expanded;
                }
            },
            RunItem::ToolInvocation { expanded, .. } => {
                *expanded = !*expanded;
            },
        }
    }

    /// Whether the card can be folded up and opened.
    pub fn is_toggleable(&self) -> (r: bool)
        ensures
            r == run_foldable(self@),
    {
        match self {
            RunItem::Text { text, .. } => text_is_collapsible(text.as_str()),
            RunItem::ToolInvocation { .. } => true,
        }
    }

    /// The run that the card leads to.
    pub fn linked_run_id(&self) -> (r: Option<String>)
        ensures
            opt_view(r) == run_link(self@),
    {
        match self {
            RunItem::ToolInvocation { output, .. } => output.get_str("run_id"),
            RunItem::Text { text, .. } => parse_run_id_from_text(text.as_str()),
        }
    }
}

/// The first eight characters of a run's identifier.
pub fn short_run_id(run_id: &str) -> (r: String)
    ensures
        r@ == clipped(run_id@, 8),
{
    short_id(run_id)
}

/// What is told of a run: what it is, and what came of it.
pub open spec fn run_cards(run: DelegatedRun) -> Seq<RunItemView> {
    let head = told(
        MessageRoleTag::System,
        "Sub-agent trace for run "@ + run.run_id@ + " (agent="@ + run.agent_id@ + ", state="@
            + run.state@ + ")"@,
    );
    match run.summary {
        Some(summary) => seq![head, told(MessageRoleTag::Assistant, summary@)],
        None => seq![head],
    }
}

/// What is told of a run.
pub fn run_thread_items(run: &DelegatedRun) -> (r: Vec<RunItem>)
    ensures
        run_item_views(r@) == run_cards(*run),
{
    let mut head = cat3("Sub-agent trace for run ", run.run_id.as_str(), " (agent=");
    head.append(run.agent_id.as_str());
    head.append(", state=");
    head.append(run.state.as_str());
    head.append(")");
    let mut items: Vec<RunItem> = Vec::new();
    items.push(RunItem::text(MessageRoleTag::System, head));
    match &run.summary {
        Some(summary) => {
            items.push(RunItem::text(MessageRoleTag::Assistant, summary.clone()));
        },
        None => {},
    }
    assert(run_item_views(items@) =~= run_cards(*run));
    items
}

/// The card of a message of the orchestrator's thread.
pub open spec fn card_of(message: OrchestratorThreadMessage) -> RunItemView {
    match message {
        OrchestratorThreadMessage::Text { role, content } => told(
            MessageRoleTag::of_word(role@),
            content@,
        ),
        OrchestratorThreadMessage::ToolInvocation {
            call_id,
            tool_id,
            arguments,
            status,
            output,
        } => RunItemView::Tool {
            call_id: call_id@,
            tool_id: tool_id@,
            status: status@,
            arguments: arguments@,
            output: output@,
            expanded: false,
        },
    }
}

/// The card of a message of the orchestrator's thread.
pub fn timeline_item_from_thread_message(message: OrchestratorThreadMessage) -> (r: RunItem)
    ensures
        r@ == card_of(message),
{
    match message {
        OrchestratorThreadMessage::Text { role, content } => RunItem::text(
            MessageRoleTag::from_wire_role(role.as_str()),
            content,
        ),
        OrchestratorThreadMessage::ToolInvocation {
            call_id,
            tool_id,
            arguments,
            status,
            output,
        } => RunItem::ToolInvocation {
            call_id,
            tool_id,
            status,
            arguments,
            output,
            expanded: false,
        },
    }
}

/// The card of a tool call.
pub open spec fn call_card(call: OrchestratorToolInvocation) -> RunItemView {
    RunItemView::Tool {
        call_id: call.call_id@,
        tool_id: call.tool_id@,
        status: call.status@,
        arguments: call.arguments@,
        output: call.output@,
        expanded: false,
    }
}

/// The card of a tool call.
pub fn tool_item_from_invocation(invocation: &OrchestratorToolInvocation) -> (r: RunItem)
    ensures
        r@ == call_card(*invocation),
{
    RunItem::ToolInvocation {
        call_id: invocation.call_id.clone(),
        tool_id: invocation.tool_id.clone(),
        status: invocation.status.clone(),
        arguments: invocation.arguments.copy(),
        output: invocation.output.copy(),
        expanded: false,
    }
}

// ---- laws --------------------------------------------------------------------------------

/// Folding a card up and opening it again, or the other way round, leaves it as it was.
pub proof fn flipping_a_run_card_twice(item: RunItemView)
    ensures
        run_flipped(run_flipped(item)) == item,
{
}

/// Whether a card is folded up changes neither what it leads to nor its document.
pub proof fn folding_keeps_the_content(item: RunItemView)
    ensures
        run_link(run_flipped(item)) == run_link(item),
        run_snapshot(run_flipped(item)) == run_snapshot(item),
{
}

/// A message that tells of a delegated run leads to that run.
pub proof fn delegation_notes_lead_to_their_run(run_id: Seq<char>, rest: Seq<char>)
    requires
        run_id.len() > 0,
        forall|i: int| 0 <= i < run_id.len() ==> !white(#[trigger] run_id[i]),
    ensures
        run_in("delegated run "@ + run_id + " "@ + rest) == Some(run_id),
{
    let head = "delegated run "@;
    let tail = run_id + " "@ + rest;
    let text = head + run_id + " "@ + rest;
    reveal_strlit(" ");
    assert(text =~= head + tail);
    assert(text.skip(head.len() as int) =~= tail);
    assert(text.take(head.len() as int) =~= head);
    assert(tail[0] == run_id[0]);
    lemma_word_end(run_id, " "@ + rest);
    assert(run_id + (" "@ + rest) =~= tail);
    assert(tail.take(run_id.len() as int) =~= run_id);
}

/// Who spoke is told by the word for it; any word but two is the assistant's.
pub proof fn speakers_are_told_by_word(word: Seq<char>)
    ensures
        MessageRoleTag::of_word("system"@) is System,
        MessageRoleTag::of_word("user"@) is User,
        word != "system"@ && word != "user"@ ==> MessageRoleTag::of_word(word) is Assistant,
{
    reveal_strlit("system");
    reveal_strlit("user");
    assert("system"@.len() == 6 && "user"@.len() == 4);
}

/// A message is shown whole where it is short or opened, and else by its preview, line by line.
pub proof fn talk_is_shown_line_by_line(role: MessageRoleTag, text: Seq<char>, expanded: bool, i: int)
    ensures
        ({
            let rows = message_rows(role, text, expanded);
            let source = if expanded || !collapsible(text) {
                lines(text)
            } else {
                preview(text, 3, 220)
            };
            let n = if source.len() == 0 {
                1int
            } else {
                source.len() as int
            };
            &&& rows[0].spans[0].content == "["@ + role.name() + "] "@
            &&& source.len() > 0 ==> rows[0].spans[1].content == source[0]
            &&& 0 < i < source.len() ==> rows[i].spans[0].content == "           "@ + source[i]
            &&& collapsible(text) ==> rows.len() == n + 2 && rows[n].spans[0].content == (
            if expanded {
                "           [expanded] Space to collapse"@
            } else {
                "           [collapsed] Space to expand"@
            })
            &&& !collapsible(text) ==> rows.len() == n + 1
            &&& rows.last().spans.len() == 0
        }),
{
}

/// A call is shown with its tool and how it stands, and when it is opened with all that went in and
/// came out.
pub proof fn calls_are_shown_with_their_state(
    call_id: Seq<char>,
    tool_id: Seq<char>,
    status: Seq<char>,
    arguments: JsonTree,
    output: JsonTree,
    i: int,
)
    ensures
        ({
            let folded = call_rows(call_id, tool_id, status, arguments, output, false);
            let opened = call_rows(call_id, tool_id, status, arguments, output, true);
            let a = lines(pretty_text(arguments));
            let b = lines(pretty_text(output));
            &&& folded.len() == 2
            &&& folded[0].spans[1].content == tool_id
            &&& folded[0].spans[4].content == status
            &&& folded[0].spans[4].style == state_ink(status)
            &&& folded[0].spans[5].content == " [collapsed]"@
            &&& opened[0].spans[1].content == tool_id
            &&& opened[0].spans[4].content == status
            &&& opened[0].spans[5].content == " [expanded]"@
            &&& opened.len() == 5 + a.len() + b.len()
            &&& opened[1].spans[1].content == call_id
            &&& opened[2].spans[0].content == "  arguments:"@
            &&& 0 <= i < a.len() ==> opened[3 + i].spans[0].content == "    "@ + a[i]
            &&& opened[(3 + a.len()) as int].spans[0].content == "  output:"@
            &&& 0 <= i < b.len() ==> opened[4 + a.len() + i].spans[0].content == "    "@ + b[i]
        }),
{
}

/// The colours for how a call stands.
pub proof fn states_of_runs_have_their_colours(status: Seq<char>)
    ensures
        status == "success"@ || status == "completed"@ ==> state_ink(status) == ink(Color::Green),
        status != "success"@ && status != "completed"@ && (status == "error"@ || status == "failed"@)
            ==> state_ink(status) == ink(Color::Red),
        status != "success"@ && status != "completed"@ && status != "error"@ && status != "failed"@
            && status == "running"@ ==> state_ink(status) == ink(Color::Yellow),
        status != "success"@ && status != "completed"@ && status != "error"@ && status != "failed"@
            && status != "running"@ ==> state_ink(status) == ink(Color::Gray),
        card_style(false) == plain(),
        card_style(true) == bold(on(Color::White, Color::DarkGray)),
{
}

/// The trace of a run says which run it is, who works on it and how it stands, and then what came of
/// it if anything did.
pub proof fn runs_tell_what_came_of_them(run: DelegatedRun)
    ensures
        run_cards(run)[0] matches RunItemView::Text { role, text, .. } && role is System && text
            == "Sub-agent trace for run "@ + run.run_id@ + " (agent="@ + run.agent_id@ + ", state="@
            + run.state@ + ")"@,
        run.summary is None ==> run_cards(run).len() == 1,
        run.summary matches Some(s) ==> run_cards(run).len() == 2 && (
        run_cards(run)[1] matches RunItemView::Text { role, text, .. } && role is Assistant && text
            == s@),
{
}

/// A message becomes a card with what it says, by who said it; a call becomes one with all of it.
pub proof fn messages_become_cards(message: OrchestratorThreadMessage, call: OrchestratorToolInvocation)
    ensures
        match message {
            OrchestratorThreadMessage::Text { role, content } => card_of(
                message,
            ) matches RunItemView::Text { role: r, text, expanded } && r == MessageRoleTag::of_word(
                role@,
            ) && text == content@ && expanded == !collapsible(content@),
            OrchestratorThreadMessage::ToolInvocation {
                call_id,
                tool_id,
                arguments,
                status,
                output,
            } => card_of(message) == (RunItemView::Tool {
                call_id: call_id@,
                tool_id: tool_id@,
                status: status@,
                arguments: arguments@,
                output: output@,
                expanded: false,
            }),
        },
        call_card(call) == (RunItemView::Tool {
            call_id: call.call_id@,
            tool_id: call.tool_id@,
            status: call.status@,
            arguments: call.arguments@,
            output: call.output@,
            expanded: false,
        }),
{
}

/// A call leads to the run that its output names; any call and any long text can be folded.
pub proof fn cards_lead_to_runs(item: RunItemView)
    ensures
        item matches RunItemView::Tool { output, .. } ==> run_link(item) == output.field_text(
            "run_id"@,
        ) && run_foldable(item),
        item matches RunItemView::Text { text, .. } ==> run_link(item) == run_in(text) && (run_foldable(
            item,
        ) <==> collapsible(text)),
        item matches RunItemView::Text { text, .. } ==> text.len() >= 14 && text.take(14)
            != "delegated run "@ ==> run_link(item) is None,
        item matches RunItemView::Text { role, text, expanded } ==> (
        run_flipped(item) matches RunItemView::Text { role: r, text: t, expanded: e } && r == role
            && t == text && (e != expanded <==> collapsible(text))),
        item matches RunItemView::Tool { call_id, tool_id, status, arguments, output, expanded }
            ==> run_flipped(item) == (RunItemView::Tool {
            call_id,
            tool_id,
            status,
            arguments,
            output,
            expanded: !expanded,
        }),
{
    reveal_strlit("delegated run ");
    assert("delegated run "@.len() == 14);
}

/// A snapshot of a card holds all that the card was made of.
pub proof fn run_snapshots_hold_the_card(item: RunItemView)
    ensures
        ({
            let s = run_snapshot(item);
            match item {
                RunItemView::Text { role, text, .. } => {
                    &&& s.field_text("type"@) == Some("text"@)
                    &&& s.field_text("content"@) == Some(text)
                    &&& s.field_text("role"@) == Some(ascii_lower(role.name()))
                },
                RunItemView::Tool { call_id, tool_id, status, arguments, output, .. } => {
                    &&& s.field_text("type"@) == Some("tool_invocation"@)
                    &&& s.field_text("role"@) == Some("tool"@)
                    &&& s.field_text("call_id"@) == Some(call_id)
                    &&& s.field_text("tool_id"@) == Some(tool_id)
                    &&& s.field_text("status"@) == Some(status)
                    &&& s.field("arguments"@) == Some(arguments)
                    &&& s.field("output"@) == Some(output)
                },
            }
        }),
{
    reveal_strlit("role");
    reveal_strlit("type");
    reveal_strlit("content");
    reveal_strlit("call_id");
    reveal_strlit("tool_id");
    reveal_strlit("status");
    reveal_strlit("output");
    reveal_strlit("arguments");
    assert("role"@.len() == 4 && "type"@.len() == 4 && "role"@[0] == 'r' && "type"@[0] == 't');
    assert("content"@.len() == 7 && "call_id"@.len() == 7 && "tool_id"@.len() == 7 && "call_id"@[0]
        == 'c' && "tool_id"@[0] == 't' && "arguments"@.len() == 9);
    assert("status"@.len() == 6 && "output"@.len() == 6 && "status"@[0] == 's' && "output"@[0]
        == 'o');
    reveal_with_fuel(crate::json::entry, 8);
}

proof fn lemma_word_end(word: Seq<char>, rest: Seq<char>)
    requires
        forall|i: int| 0 <= i < word.len() ==> !white(#[trigger] word[i]),
        rest.len() == 0 || white(rest[0]),
    ensures
        word_end(word + rest) == word.len(),
    decreases word.len(),
{
    let s = word + rest;
    if word.len() > 0 {
        let tail = word.drop_first();
        assert forall|i: int| 0 <= i < tail.len() implies !white(#[trigger] tail[i]) by {
            assert(tail[i] == word[i + 1]);
        }
        lemma_word_end(tail, rest);
        assert(s.drop_first() =~= tail + rest);
        assert(!white(word[0]));
        assert(s[0] == word[0]);
    } else if rest.len() > 0 {
        assert(s[0] == rest[0]);
    }
}

proof fn lemma_lead(lead: Seq<char>, rest: Seq<char>)
    requires
        forall|i: int| 0 <= i < lead.len() ==> white(#[trigger] lead[i]),
        rest.len() == 0 || !white(rest[0]),
    ensures
        trim_start(lead + rest) == rest,
    decreases lead.len(),
{
    let s = lead + rest;
    if lead.len() > 0 {
        let tail = lead.drop_first();
        assert forall|i: int| 0 <= i < tail.len() implies white(#[trigger] tail[i]) by {
            assert(tail[i] == lead[i + 1]);
        }
        lemma_lead(tail, rest);
        assert(white(lead[0]));
        assert(s[0] == lead[0]);
        assert(s.drop_first() =~= tail + rest);
    } else {
        assert(s =~= rest);
    }
}

/// The first word of a text is what stands between what is white before it and what is white behind
/// it; a blank text has none.
pub proof fn the_first_word_stands_alone(lead: Seq<char>, word: Seq<char>, rest: Seq<char>)
    requires
        forall|i: int| 0 <= i < lead.len() ==> white(#[trigger] lead[i]),
        forall|i: int| 0 <= i < word.len() ==> !white(#[trigger] word[i]),
        rest.len() == 0 || white(rest[0]),
    ensures
        word.len() > 0 ==> first_word(lead + word + rest) == Some(word),
        first_word(lead) is None,
{
    let none = Seq::<char>::empty();
    lemma_lead(lead, none);
    assert(lead + none =~= lead);
    if word.len() > 0 {
        assert(!white(word[0]));
        assert((word + rest)[0] == word[0]);
        lemma_lead(lead, word + rest);
        assert(lead + (word + rest) =~= lead + word + rest);
        lemma_word_end(word, rest);
        assert((word + rest).take(word.len() as int) =~= word);
    }
}

} // verus!

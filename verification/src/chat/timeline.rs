//! The cards of a conversation: messages, tool calls and delegations, and how they are drawn.

use vstd::prelude::*;
use crate::chat::composer::INPUT_PREFIX;
use crate::chat::paint::{
    badge_chip, bold, chip, fill, filled, header_row, ink, kv_row, line0, line1, line2, line3,
    line_views, on, pair_row, piece, plain, put_line, put_lines, raw, row, row_width,
    section_header, span, widen, Color, Line, LineView, Span, SpanView, Style,
};
use crate::chat::preview::{
    collapsible, collect_tool_usage, compact_id, compacted, contains_redaction_marker, key_values,
    key_values_from_json, one_line, pair_views, pretty_json_lines, pretty_status, preview,
    preview_in_line, preview_json_value, preview_value, redacted, short_id, sorted_keys,
    status_ink, status_style, status_word, text_is_collapsible, text_preview_lines, tool_usage,
};
use crate::json;
use crate::json::{
    number_tree, object, opt_text, pretty_text, put_entry, text_or_null, Json, JsonTree,
};
use crate::text::{
    ascii_lower, blanks, cat, cat3, clipped, copy_opt, decimal, in_order, join, joined, lines,
    lines_of, opt_view, same, to_ascii_lower, to_decimal, views,
};

verus! {

/// Who a message is from.
#[derive(Debug, Clone, Copy, PartialEq, Eq, Structural)]
pub enum MessageRoleTag {
    System,
    User,
    Assistant,
}

impl MessageRoleTag {
    /// The name of a role, in capitals.
    pub open spec fn name(self) -> Seq<char> {
        match self {
            MessageRoleTag::System => "SYSTEM"@,
            MessageRoleTag::User => "USER"@,
            MessageRoleTag::Assistant => "ASSISTANT"@,
        }
    }

    /// The name of a role, in capitals.
    pub fn label(self) -> (r: &'static str)
        ensures
            r@ == self.name(),
    {
        match self {
            MessageRoleTag::System => "SYSTEM",
            MessageRoleTag::User => "USER",
            MessageRoleTag::Assistant => "ASSISTANT",
        }
    }
}

/// What is known of the event that a card was made from.
#[derive(Debug)]
pub struct TimelineRenderMeta {
    pub seq: Option<u64>,
    pub ts: Option<String>,
    pub redaction_applied: Option<bool>,
}

pub struct MetaView {
    pub seq: Option<u64>,
    pub ts: Option<Seq<char>>,
    pub redaction_applied: Option<bool>,
}

impl View for TimelineRenderMeta {
    type V = MetaView;

    open spec fn view(&self) -> MetaView {
        MetaView {
            seq: self.seq,
            ts: opt_view(self.ts),
            redaction_applied: self.redaction_applied,
        }
    }
}

/// A card of a conversation.
#[derive(Debug)]
pub enum TimelineItem {
    Text { role: MessageRoleTag, text: String, expanded: bool },
    ToolInvocation {
        call_id: String,
        tool_id: String,
        status: String,
        arguments: Json,
        output: Json,
        meta: Option<TimelineRenderMeta>,
        expanded: bool,
    },
    DelegateInvocation {
        call_id: String,
        status: String,
        target_agent: Option<String>,
        thread_id: Option<String>,
        run_id: Option<String>,
        instruction: Option<String>,
        summary: Option<String>,
        error: Option<String>,
        arguments: Json,
        output: Json,
        meta: Option<TimelineRenderMeta>,
        expanded: bool,
    },
}

/// What a card of a tool call holds.
pub struct ToolView {
    pub call_id: Seq<char>,
    pub tool_id: Seq<char>,
    pub status: Seq<char>,
    pub arguments: JsonTree,
    pub output: JsonTree,
    pub meta: Option<MetaView>,
    pub expanded: bool,
}

/// What a card of a delegation holds.
pub struct DelegateView {
    pub call_id: Seq<char>,
    pub status: Seq<char>,
    pub target_agent: Option<Seq<char>>,
    pub thread_id: Option<Seq<char>>,
    pub run_id: Option<Seq<char>>,
    pub instruction: Option<Seq<char>>,
    pub summary: Option<Seq<char>>,
    pub error: Option<Seq<char>>,
    pub arguments: JsonTree,
    pub output: JsonTree,
    pub meta: Option<MetaView>,
    pub expanded: bool,
}

/// What a card holds.
pub enum ItemView {
    Text { role: MessageRoleTag, text: Seq<char>, expanded: bool },
    Tool(ToolView),
    Delegate(DelegateView),
}

pub open spec fn meta_view(meta: Option<TimelineRenderMeta>) -> Option<MetaView> {
    match meta {
        Some(m) => Some(m@),
        None => None,
    }
}

impl View for TimelineItem {
    type V = ItemView;

    open spec fn view(&self) -> ItemView {
        match *self {
            TimelineItem::Text { role, text, expanded } => ItemView::Text {
                role,
                text: text@,
                expanded,
            },
            TimelineItem::ToolInvocation {
                call_id,
                tool_id,
                status,
                arguments,
                output,
                meta,
                expanded,
            } => ItemView::Tool(
                ToolView {
                    call_id: call_id@,
                    tool_id: tool_id@,
                    status: status@,
                    arguments: arguments@,
                    output: output@,
                    meta: meta_view(meta),
                    expanded,
                },
            ),
            TimelineItem::DelegateInvocation {
                call_id,
                status,
                target_agent,
                thread_id,
                run_id,
                instruction,
                summary,
                error,
                arguments,
                output,
                meta,
                expanded,
            } => ItemView::Delegate(
                DelegateView {
                    call_id: call_id@,
                    status: status@,
                    target_agent: opt_view(target_agent),
                    thread_id: opt_view(thread_id),
                    run_id: opt_view(run_id),
                    instruction: opt_view(instruction),
                    summary: opt_view(summary),
                    error: opt_view(error),
                    arguments: arguments@,
                    output: output@,
                    meta: meta_view(meta),
                    expanded,
                },
            ),
        }
    }
}

// ---- what a message looks like -----------------------------------------------------------

/// The style of what a message says.
pub open spec fn content_ink(role: MessageRoleTag) -> Style {
    match role {
        MessageRoleTag::System => ink(Color::DarkGray),
        _ => ink(Color::White),
    }
}

/// The first row of a message.
pub open spec fn message_head(role: MessageRoleTag, label: Seq<char>, first: Seq<char>) -> LineView {
    let said = piece(first, content_ink(role));
    match role {
        MessageRoleTag::User => row(
            seq![piece(INPUT_PREFIX@, bold(ink(Color::Rgb(140, 235, 255)))), said],
        ),
        MessageRoleTag::Assistant => row(
            seq![
                chip(
                    ascii_lower(label),
                    bold(on(Color::Rgb(205, 228, 255), Color::Rgb(52, 76, 115))),
                ),
                piece(" "@, plain()),
                said,
            ],
        ),
        MessageRoleTag::System => row(
            seq![
                chip("system"@, on(Color::DarkGray, Color::Rgb(44, 44, 52))),
                piece(" "@, plain()),
                said,
            ],
        ),
    }
}

/// A further row of a message.
pub open spec fn message_row(role: MessageRoleTag, text: Seq<char>) -> LineView {
    row(seq![piece("  "@, plain()), piece(text, content_ink(role))])
}

/// The row that says how to fold a message up or open it.
pub open spec fn fold_hint(expanded: bool) -> LineView {
    row(
        seq![
            piece(
                "  "@ + (if expanded {
                    "[expanded] Space to collapse"@
                } else {
                    "[collapsed] Space to expand"@
                }),
                ink(Color::DarkGray),
            ),
        ],
    )
}

/// The lines of a message that are shown: all of them, or the first ones while it is folded up.
pub open spec fn message_lines(text: Seq<char>, expanded: bool) -> Seq<Seq<char>> {
    if expanded || !collapsible(text) {
        lines(text)
    } else {
        preview(text, 3, 220)
    }
}

/// The rows of a message.
pub open spec fn message_card(
    role: MessageRoleTag,
    text: Seq<char>,
    expanded: bool,
    label: Seq<char>,
) -> Seq<LineView> {
    let source = message_lines(text, expanded);
    let first = if source.len() > 0 {
        source[0]
    } else {
        Seq::empty()
    };
    let rest = if source.len() > 0 {
        source.drop_first()
    } else {
        source
    };
    let body = seq![message_head(role, label, first)] + rest.map_values(
        |line: Seq<char>| message_row(role, line),
    ) + (if collapsible(text) {
        seq![fold_hint(expanded)]
    } else {
        seq![]
    });
    match role {
        MessageRoleTag::System => body,
        _ => seq![row(seq![])] + body + seq![row(seq![])],
    }
}

fn message_first(role: MessageRoleTag, label: &str, first: &str) -> (r: Line)
    ensures
        r@ == message_head(role, label@, first@),
{
    match role {
        MessageRoleTag::User => line2(
            span(INPUT_PREFIX, bold(ink(Color::Rgb(140, 235, 255)))),
            span(first, ink(Color::White)),
        ),
        MessageRoleTag::Assistant => line3(
            badge_chip(
                to_ascii_lower(label).as_str(),
                bold(on(Color::Rgb(205, 228, 255), Color::Rgb(52, 76, 115))),
            ),
            raw(" "),
            span(first, ink(Color::White)),
        ),
        MessageRoleTag::System => line3(
            badge_chip("system", on(Color::DarkGray, Color::Rgb(44, 44, 52))),
            raw(" "),
            span(first, ink(Color::DarkGray)),
        ),
    }
}

fn draw_message(role: MessageRoleTag, text: &str, expanded: bool, label: &str) -> (r: Vec<Line>)
    ensures
        line_views(r@) == message_card(role, text@, expanded, label@),
{
    let foldable = text_is_collapsible(text);
    let source = if expanded || !foldable {
        lines_of(text)
    } else {
        text_preview_lines(text, 3, 220)
    };
    let ghost src = message_lines(text@, expanded);
    assert(views(source@) == src);
    assert(source@.len() == src.len());
    let style = match role {
        MessageRoleTag::System => ink(Color::DarkGray),
        _ => ink(Color::White),
    };
    let mut out: Vec<Line> = Vec::new();
    let framed = match role {
        MessageRoleTag::System => false,
        _ => true,
    };
    let ghost top: Seq<LineView> = if framed {
        seq![row(seq![])]
    } else {
        seq![]
    };
    assert(line_views(out@) =~= seq![]);
    if framed {
        put_line(&mut out, line0());
        assert(line_views(out@) =~= top);
    }
    let ghost first: Seq<char> = if src.len() > 0 {
        src[0]
    } else {
        Seq::empty()
    };
    let head = if source.len() > 0 {
        assert(src[0] == source@[0]@);
        message_first(role, label, source[0].as_str())
    } else {
        let none = String::new();
        message_first(role, label, none.as_str())
    };
    put_line(&mut out, head);
    let ghost f = |line: Seq<char>| message_row(role, line);
    let ghost rest: Seq<Seq<char>> = if src.len() > 0 {
        src.drop_first()
    } else {
        src
    };
    let ghost start = top + seq![message_head(role, label@, first)];
    assert(line_views(out@) =~= start);
    assert(start + rest.take(0).map_values(f) =~= start);
    let mut i: usize = 1;
    while i < source.len()
        invariant
            1 <= i,
            i <= source@.len() || source@.len() == 0 && i == 1,
            views(source@) == src,
            rest == (if src.len() > 0 {
                src.drop_first()
            } else {
                src
            }),
            style == content_ink(role),
            f == (|line: Seq<char>| message_row(role, line)),
            line_views(out@) == start + rest.take(i - 1).map_values(f),
        decreases source@.len() - i,
    {
        let ghost before = line_views(out@);
        put_line(&mut out, line2(raw("  "), span(source[i].as_str(), style)));
        proof {
            assert(src[i as int] == source@[i as int]@);
            assert(rest[i - 1] == src[i as int]);
            assert(rest.take(i as int) =~= rest.take(i - 1).push(rest[i - 1]));
            assert(rest.take(i as int).map_values(f) =~= rest.take(i - 1).map_values(f).push(
                f(rest[i - 1]),
            ));
            assert(line_views(out@) =~= start + rest.take(i as int).map_values(f));
        }
        i = i + 1;
    }
    assert(rest.take(i - 1) =~= rest);
    if foldable {
        let hint = if expanded {
            cat("  ", "[expanded] Space to collapse")
        } else {
            cat("  ", "[collapsed] Space to expand")
        };
        put_line(&mut out, line1(Span { content: hint, style: ink(Color::DarkGray) }));
    }
    if framed {
        put_line(&mut out, line0());
    }
    assert(line_views(out@) =~= message_card(role, text@, expanded, label@));
    out
}

// ---- what a tool call looks like ---------------------------------------------------------

/// Tools that make a proposal.
pub open spec fn proposes(id: Seq<char>) -> bool {
    id == "propose_config_change"@ || id == "propose_skill_add"@ || id == "propose_skill_update"@
        || id == "propose_agent_add"@ || id == "propose_agent_update"@
}

/// Tools by which the system looks at itself and changes.
pub open spec fn adapts(id: Seq<char>) -> bool {
    proposes(id) || id == "list_proposals"@ || id == "get_proposal"@ || id == "analyze_failures"@
        || id == "score_skills"@ || id == "adapt_routing"@ || id == "record_lesson"@ || id
        == "run_redteam_eval"@ || id == "list_audit_records"@
}

/// Tools that decide on a proposal.
pub open spec fn authorizes(id: Seq<char>) -> bool {
    id == "authorize_proposal"@ || id == "apply_authorized_proposal"@
}

fn is_proposing(id: &str) -> (r: bool)
    ensures
        r == proposes(id@),
{
    same(id, "propose_config_change") || same(id, "propose_skill_add") || same(
        id,
        "propose_skill_update",
    ) || same(id, "propose_agent_add") || same(id, "propose_agent_update")
}

fn is_adapting(id: &str) -> (r: bool)
    ensures
        r == adapts(id@),
{
    is_proposing(id) || same(id, "list_proposals") || same(id, "get_proposal") || same(
        id,
        "analyze_failures",
    ) || same(id, "score_skills") || same(id, "adapt_routing") || same(id, "record_lesson") || same(
        id,
        "run_redteam_eval",
    ) || same(id, "list_audit_records")
}

fn is_authorizing(id: &str) -> (r: bool)
    ensures
        r == authorizes(id@),
{
    same(id, "authorize_proposal") || same(id, "apply_authorized_proposal")
}

/// The chip that stands for a kind of tool.
pub open spec fn tool_chip(id: Seq<char>) -> SpanView {
    if id == "list_agents"@ {
        chip("agents"@, bold(on(Color::Rgb(196, 236, 255), Color::Rgb(36, 88, 108))))
    } else if id == "read_config"@ {
        chip("config"@, bold(on(Color::Rgb(252, 212, 255), Color::Rgb(92, 48, 105))))
    } else if id == "modify_skill"@ {
        chip("skill"@, bold(on(Color::Rgb(210, 229, 255), Color::Rgb(48, 76, 122))))
    } else if adapts(id) {
        chip("adapt"@, bold(on(Color::Rgb(252, 220, 255), Color::Rgb(95, 43, 110))))
    } else if authorizes(id) {
        chip("auth"@, bold(on(Color::Rgb(245, 220, 255), Color::Rgb(109, 55, 118))))
    } else {
        chip("tool"@, bold(on(Color::Rgb(255, 236, 197), Color::Rgb(95, 77, 28))))
    }
}

fn tool_badge(id: &str) -> (r: Span)
    ensures
        r@ == tool_chip(id@),
{
    if same(id, "list_agents") {
        badge_chip("agents", bold(on(Color::Rgb(196, 236, 255), Color::Rgb(36, 88, 108))))
    } else if same(id, "read_config") {
        badge_chip("config", bold(on(Color::Rgb(252, 212, 255), Color::Rgb(92, 48, 105))))
    } else if same(id, "modify_skill") {
        badge_chip("skill", bold(on(Color::Rgb(210, 229, 255), Color::Rgb(48, 76, 122))))
    } else if is_adapting(id) {
        badge_chip("adapt", bold(on(Color::Rgb(252, 220, 255), Color::Rgb(95, 43, 110))))
    } else if is_authorizing(id) {
        badge_chip("auth", bold(on(Color::Rgb(245, 220, 255), Color::Rgb(109, 55, 118))))
    } else {
        badge_chip("tool", bold(on(Color::Rgb(255, 236, 197), Color::Rgb(95, 77, 28))))
    }
}

/// The first row of a tool call.
pub open spec fn tool_head(t: ToolView) -> LineView {
    row(
        seq![
            tool_chip(t.tool_id),
            piece(" "@, plain()),
            piece(t.tool_id, ink(Color::Gray)),
            piece(" status="@, plain()),
            piece(t.status, status_ink(t.status)),
            piece(
                if t.expanded {
                    " [expanded]"@
                } else {
                    " [collapsed]"@
                },
                ink(Color::DarkGray),
            ),
        ],
    )
}

fn draw_tool_head(tool_id: &str, status: &str, expanded: bool) -> (r: Line)
    ensures
        forall|t: ToolView|
            t.tool_id == tool_id@ && t.status == status@ && t.expanded == expanded ==> r@
                == #[trigger] tool_head(t),
{
    let a = line3(tool_badge(tool_id), raw(" "), span(tool_id, ink(Color::Gray)));
    let b = widen(a, raw(" status="));
    let c = widen(b, span(status, status_style(status)));
    let fold = if expanded {
        " [expanded]"
    } else {
        " [collapsed]"
    };
    let d = widen(c, span(fold, ink(Color::DarkGray)));
    proof {
        assert forall|t: ToolView|
            t.tool_id == tool_id@ && t.status == status@ && t.expanded == expanded implies d@
            == #[trigger] tool_head(t) by {
            assert(d@.spans =~= tool_head(t).spans);
        }
    }
    d
}

/// A label in gray and what it stands for.
pub open spec fn noted(label: Seq<char>, value: Seq<char>) -> LineView {
    row(seq![piece(label, ink(Color::DarkGray)), piece(value, plain())])
}

fn note(label: &str, value: &str) -> (r: Line)
    ensures
        r@ == noted(label@, value@),
{
    line2(span(label, ink(Color::DarkGray)), raw(value))
}

/// A row in gray.
pub open spec fn aside(text: Seq<char>) -> LineView {
    row(seq![piece(text, ink(Color::DarkGray))])
}

fn remark(text: &str) -> (r: Line)
    ensures
        r@ == aside(text@),
{
    line1(span(text, ink(Color::DarkGray)))
}

/// What the first of two fields that is a text holds, or else a word for neither.
pub open spec fn either_text(v: JsonTree, a: Seq<char>, b: Seq<char>, otherwise: Seq<char>) -> Seq<
    char,
> {
    match (v.field_text(a), v.field_text(b)) {
        (Some(s), _) => s,
        (None, Some(s)) => s,
        (None, None) => otherwise,
    }
}

/// The short form of the identifier in the first of two fields that is a text, or a dash.
pub open spec fn either_id(v: JsonTree, a: Seq<char>, b: Seq<char>) -> Seq<char> {
    match (v.field_text(a), v.field_text(b)) {
        (Some(s), _) => clipped(s, 8),
        (None, Some(s)) => clipped(s, 8),
        (None, None) => "-"@,
    }
}

fn text_of_either(v: &Json, a: &str, b: &str, otherwise: &str) -> (r: String)
    ensures
        r@ == either_text(v@, a@, b@, otherwise@),
{
    match v.get_str(a) {
        Some(s) => s,
        None => match v.get_str(b) {
            Some(s) => s,
            None => otherwise.to_owned(),
        },
    }
}

fn id_of_either(v: &Json, a: &str, b: &str) -> (r: String)
    ensures
        r@ == either_id(v@, a@, b@),
{
    match v.get_str(a) {
        Some(s) => short_id(s.as_str()),
        None => match v.get_str(b) {
            Some(s) => short_id(s.as_str()),
            None => "-".to_owned(),
        },
    }
}

/// The row of one agent in a list of agents. Its state is drawn as the state of the call is.
pub open spec fn agent_row(agent: JsonTree, status: Seq<char>) -> LineView {
    row(
        seq![
            piece("  - "@, ink(Color::DarkGray)),
            piece(either_text(agent, "agent_id"@, "id"@, "unknown"@), ink(Color::Cyan)),
            piece(" ["@, plain()),
            piece(either_text(agent, "state"@, "status"@, "unknown"@), status_ink(status)),
            piece("] "@, plain()),
            piece("thread="@, ink(Color::DarkGray)),
            piece(either_id(agent, "thread_id"@, "latest_thread_id"@), plain()),
            piece(" run="@, ink(Color::DarkGray)),
            piece(either_id(agent, "run_id"@, "latest_run_id"@), plain()),
        ],
    )
}

fn draw_agent(agent: &Json, status: &str) -> (r: Line)
    ensures
        r@ == agent_row(agent@, status@),
{
    let name = text_of_either(agent, "agent_id", "id", "unknown");
    let state = text_of_either(agent, "state", "status", "unknown");
    let thread = id_of_either(agent, "thread_id", "latest_thread_id");
    let run = id_of_either(agent, "run_id", "latest_run_id");
    let a = line3(
        span("  - ", ink(Color::DarkGray)),
        span(name.as_str(), ink(Color::Cyan)),
        raw(" ["),
    );
    let b = widen(a, span(state.as_str(), status_style(status)));
    let c = widen(b, raw("] "));
    let d = widen(c, span("thread=", ink(Color::DarkGray)));
    let e = widen(d, raw(thread.as_str()));
    let f = widen(e, span(" run=", ink(Color::DarkGray)));
    let g = widen(f, raw(run.as_str()));
    assert(g@.spans =~= agent_row(agent@, status@).spans);
    g
}

/// The agents that a call of `list_agents` found.
pub open spec fn agents_in(output: JsonTree) -> Seq<JsonTree> {
    match output.field("agents"@) {
        Some(agents) => agents.items(),
        None => seq![],
    }
}

/// The rows of a call of `list_agents`: four agents, or all of them once opened.
pub open spec fn agents_rows(output: JsonTree, status: Seq<char>, expanded: bool) -> Seq<LineView> {
    let agents = agents_in(output);
    let visible = if expanded || agents.len() < 4 {
        agents.len()
    } else {
        4
    };
    seq![noted("  agents: "@, decimal(agents.len()) + " found"@)] + agents.take(
        visible as int,
    ).map_values(|agent: JsonTree| agent_row(agent, status)) + (if visible < agents.len() {
        seq![
            aside(
                "  ... "@ + decimal((agents.len() - visible) as nat)
                    + " more (expand for full list)"@,
            ),
        ]
    } else {
        seq![]
    })
}

fn draw_agents(output: &Json, status: &str, expanded: bool) -> (r: Vec<Line>)
    ensures
        line_views(r@) == agents_rows(output@, status@, expanded),
{
    let mut out: Vec<Line> = Vec::new();
    let ghost agents = agents_in(output@);
    let none: Vec<Json> = Vec::new();
    let list: &Vec<Json> = match output.get("agents") {
        Some(value) => match value {
            Json::Array(items) => items,
            _ => &none,
        },
        None => &none,
    };
    proof {
        assert(list@.len() == agents.len());
        assert forall|i: int| 0 <= i < list@.len() implies agents[i] == (#[trigger] list@[i])@ by {}
    }
    let visible: usize = if expanded || list.len() < 4 {
        list.len()
    } else {
        4
    };
    let found = cat(to_decimal(list.len() as u64).as_str(), " found");
    assert(line_views(out@) =~= seq![]);
    put_line(&mut out, note("  agents: ", found.as_str()));
    let ghost head = seq![noted("  agents: "@, found@)];
    let ghost f = |agent: JsonTree| agent_row(agent, status@);
    assert(line_views(out@) =~= head + agents.take(0).map_values(f));
    let mut i: usize = 0;
    while i < visible
        invariant
            i <= visible <= list@.len(),
            list@.len() == agents.len(),
            forall|k: int| 0 <= k < list@.len() ==> agents[k] == (#[trigger] list@[k])@,
            f == (|agent: JsonTree| agent_row(agent, status@)),
            line_views(out@) == head + agents.take(i as int).map_values(f),
        decreases visible - i,
    {
        put_line(&mut out, draw_agent(&list[i], status));
        proof {
            assert(agents[i as int] == list@[i as int]@);
            assert(line_views(out@) =~= head + agents.take(i + 1).map_values(f));
        }
        i = i + 1;
    }
    if visible < list.len() {
        let more = cat3(
            "  ... ",
            to_decimal((list.len() - visible) as u64).as_str(),
            " more (expand for full list)",
        );
        put_line(&mut out, remark(more.as_str()));
    }
    assert(line_views(out@) =~= agents_rows(output@, status@, expanded));
    out
}

/// The rows of a call of `read_config`: six sections, or all of them once opened, and whether
/// anything was left out.
pub open spec fn config_rows(output: JsonTree, expanded: bool) -> Seq<LineView> {
    let sections = in_order(output.keys());
    let n = if expanded || sections.len() < 6 {
        sections.len()
    } else {
        6
    };
    let shown = joined(sections.take(n as int), ", "@);
    let left_out = redacted(output);
    seq![noted("  snapshot: "@, decimal(sections.len()) + " top-level sections"@)] + (if shown.len()
        > 0 {
        seq![noted("  sections: "@, shown)]
    } else {
        seq![]
    }) + seq![
        row(
            seq![
                piece("  redaction: "@, ink(Color::DarkGray)),
                piece(
                    if left_out {
                        "yes"@
                    } else {
                        "no"@
                    },
                    ink(
                        if left_out {
                            Color::Yellow
                        } else {
                            Color::Green
                        },
                    ),
                ),
            ],
        ),
    ] + (if n < sections.len() {
        seq![
            aside(
                "  ... "@ + decimal((sections.len() - n) as nat)
                    + " more sections (expand for full snapshot)"@,
            ),
        ]
    } else {
        seq![]
    })
}

fn draw_config(output: &Json, expanded: bool) -> (r: Vec<Line>)
    ensures
        line_views(r@) == config_rows(output@, expanded),
{
    let mut out: Vec<Line> = Vec::new();
    let sections = sorted_keys(output);
    let ghost all = in_order(output@.keys());
    assert(sections@.len() == views(sections@).len());
    let n: usize = if expanded || sections.len() < 6 {
        sections.len()
    } else {
        6
    };
    let mut first: Vec<String> = Vec::new();
    let mut i: usize = 0;
    assert(views(first@) =~= all.take(0));
    while i < n
        invariant
            i <= n <= sections@.len(),
            views(sections@) == all,
            views(first@) == all.take(i as int),
        decreases n - i,
    {
        let ghost before = views(first@);
        let name = sections[i].clone();
        first.push(name);
        proof {
            assert(all[i as int] == name@);
            assert(views(first@) =~= before.push(name@));
            assert(all.take(i + 1) =~= before.push(name@));
        }
        i = i + 1;
    }
    let shown = join(&first, ", ");
    let total = cat(to_decimal(sections.len() as u64).as_str(), " top-level sections");
    assert(line_views(out@) =~= seq![]);
    put_line(&mut out, note("  snapshot: ", total.as_str()));
    if !shown.as_str().is_empty() {
        put_line(&mut out, note("  sections: ", shown.as_str()));
    }
    let left_out = contains_redaction_marker(output);
    let (word, color) = if left_out {
        ("yes", Color::Yellow)
    } else {
        ("no", Color::Green)
    };
    put_line(
        &mut out,
        line2(span("  redaction: ", ink(Color::DarkGray)), span(word, ink(color))),
    );
    if n < sections.len() {
        let more = cat3(
            "  ... ",
            to_decimal((sections.len() - n) as u64).as_str(),
            " more sections (expand for full snapshot)",
        );
        put_line(&mut out, remark(more.as_str()));
    }
    assert(line_views(out@) =~= config_rows(output@, expanded));
    out
}

/// The rows of a call of `modify_skill`.
pub open spec fn skill_rows(output: JsonTree) -> Seq<LineView> {
    seq![
        noted("  action: "@, either_text(output, "status"@, "result"@, "unknown"@)),
        noted("  reason: "@, one_line(either_text(output, "reason"@, "error"@, "n/a"@), 1, 180)),
    ]
}

fn draw_skill(output: &Json) -> (r: Vec<Line>)
    ensures
        line_views(r@) == skill_rows(output@),
{
    let mut out: Vec<Line> = Vec::new();
    let action = text_of_either(output, "status", "result", "unknown");
    let reason = text_of_either(output, "reason", "error", "n/a");
    put_line(&mut out, note("  action: ", action.as_str()));
    put_line(&mut out, note("  reason: ", preview_in_line(reason.as_str(), 1, 180).as_str()));
    assert(line_views(out@) =~= skill_rows(output@));
    out
}

/// What a field of the output holds, or the same field of the proposal in it.
pub open spec fn proposal_text(output: JsonTree, key: Seq<char>) -> Seq<char> {
    match output.field_text(key) {
        Some(s) => s,
        None => match output.field("proposal"@) {
            Some(proposal) => match proposal.field_text(key) {
                Some(s) => s,
                None => "n/a"@,
            },
            None => "n/a"@,
        },
    }
}

fn text_of_proposal(output: &Json, key: &str) -> (r: String)
    ensures
        r@ == proposal_text(output@, key@),
{
    match output.get_str(key) {
        Some(s) => s,
        None => match output.get("proposal") {
            Some(proposal) => match proposal.get_str(key) {
                Some(s) => s,
                None => "n/a".to_owned(),
            },
            None => "n/a".to_owned(),
        },
    }
}

/// The rows of a call that makes a proposal or decides on one.
pub open spec fn proposal_rows(output: JsonTree) -> Seq<LineView> {
    seq![
        noted("  proposal: "@, proposal_text(output, "proposal_id"@)),
        noted("  state: "@, proposal_text(output, "state"@)),
    ]
}

fn draw_proposal(output: &Json) -> (r: Vec<Line>)
    ensures
        line_views(r@) == proposal_rows(output@),
{
    let mut out: Vec<Line> = Vec::new();
    put_line(&mut out, note("  proposal: ", text_of_proposal(output, "proposal_id").as_str()));
    put_line(&mut out, note("  state: ", text_of_proposal(output, "state").as_str()));
    assert(line_views(out@) =~= proposal_rows(output@));
    out
}

/// The rows that a kind of tool adds to its calls.
pub open spec fn kind_rows(t: ToolView) -> Seq<LineView> {
    if t.tool_id == "list_agents"@ {
        agents_rows(t.output, t.status, t.expanded)
    } else if t.tool_id == "read_config"@ {
        config_rows(t.output, t.expanded)
    } else if t.tool_id == "modify_skill"@ {
        skill_rows(t.output)
    } else if proposes(t.tool_id) || authorizes(t.tool_id) {
        proposal_rows(t.output)
    } else {
        seq![]
    }
}

/// A document printed under a heading.
pub open spec fn document_rows(heading: Seq<char>, value: JsonTree) -> Seq<LineView> {
    seq![row(seq![piece(heading, ink(Color::Gray))])] + lines(pretty_text(value)).map_values(
        |line: Seq<char>| row(seq![piece("    "@ + line, plain())]),
    )
}

fn draw_document(heading: &str, value: &Json) -> (r: Vec<Line>)
    ensures
        line_views(r@) == document_rows(heading@, value@),
{
    let mut out: Vec<Line> = Vec::new();
    let list = pretty_json_lines(value);
    let ghost all = lines(pretty_text(value@));
    let ghost f = |line: Seq<char>| row(seq![piece("    "@ + line, plain())]);
    let ghost head = seq![row(seq![piece(heading@, ink(Color::Gray))])];
    assert(list@.len() == views(list@).len());
    assert(line_views(out@) =~= seq![]);
    put_line(&mut out, line1(span(heading, ink(Color::Gray))));
    assert(line_views(out@) =~= head + all.take(0).map_values(f));
    let mut i: usize = 0;
    while i < list.len()
        invariant
            i <= list@.len(),
            views(list@) == all,
            f == (|line: Seq<char>| row(seq![piece("    "@ + line, plain())])),
            line_views(out@) == head + all.take(i as int).map_values(f),
        decreases list@.len() - i,
    {
        put_line(&mut out, line1(Span { content: cat("    ", list[i].as_str()), style: plain() }));
        proof {
            assert(all[i as int] == list@[i as int]@);
            assert(line_views(out@) =~= head + all.take(i + 1).map_values(f));
        }
        i = i + 1;
    }
    assert(all.take(i as int) =~= all);
    out
}

/// A text, or a word for none.
pub open spec fn text_or(value: Option<Seq<char>>, otherwise: Seq<char>) -> Seq<char> {
    match value {
        Some(s) => s,
        None => otherwise,
    }
}

/// What is known of the event behind a tool call.
pub open spec fn meta_text(t: ToolView) -> Seq<char> {
    let number = match t.meta {
        Some(MetaView { seq: Some(n), .. }) => decimal(n as nat),
        _ => "n/a"@,
    };
    let ts = match t.meta {
        Some(m) => text_or(m.ts, "n/a"@),
        None => "n/a"@,
    };
    let flag = match t.meta {
        Some(MetaView { redaction_applied: Some(true), .. }) => "yes"@,
        Some(MetaView { redaction_applied: Some(false), .. }) => "no"@,
        _ => "n/a"@,
    };
    "status="@ + t.status + " thread="@ + either_id(t.output, "thread_id"@, "thread_id"@)
        + " run="@ + either_id(t.output, "run_id"@, "run_id"@) + " seq="@ + number + " ts="@ + ts
        + " redacted="@ + flag
}

/// The rows of a tool call.
pub open spec fn tool_card(t: ToolView) -> Seq<LineView> {
    seq![tool_head(t)] + kind_rows(t) + (if t.expanded {
        seq![
            row(
                seq![
                    piece("  call id: "@, ink(Color::DarkGray)),
                    piece(t.call_id, ink(Color::DarkGray)),
                ],
            ),
            noted("  meta: "@, meta_text(t)),
        ] + document_rows("  arguments:"@, t.arguments) + document_rows("  output:"@, t.output)
    } else {
        seq![]
    })
}

fn draw_meta(
    status: &str,
    output: &Json,
    meta: &Option<TimelineRenderMeta>,
) -> (r: String)
    ensures
        forall|t: ToolView|
            t.status == status@ && t.output == output@ && t.meta == meta_view(*meta) ==> r@
                == #[trigger] meta_text(t),
{
    let number = match meta {
        Some(m) => match m.seq {
            Some(n) => to_decimal(n),
            None => "n/a".to_owned(),
        },
        None => "n/a".to_owned(),
    };
    let ts = match meta {
        Some(m) => match &m.ts {
            Some(s) => s.clone(),
            None => "n/a".to_owned(),
        },
        None => "n/a".to_owned(),
    };
    let flag = match meta {
        Some(m) => match m.redaction_applied {
            Some(b) => if b {
                "yes"
            } else {
                "no"
            },
            None => "n/a",
        },
        None => "n/a",
    };
    let mut text = cat("status=", status);
    text.append(" thread=");
    text.append(id_of_either(output, "thread_id", "thread_id").as_str());
    text.append(" run=");
    text.append(id_of_either(output, "run_id", "run_id").as_str());
    text.append(" seq=");
    text.append(number.as_str());
    text.append(" ts=");
    text.append(ts.as_str());
    text.append(" redacted=");
    text.append(flag);
    text
}

fn draw_tool(item: &TimelineItem) -> (r: Vec<Line>)
    requires
        item is ToolInvocation,
    ensures
        line_views(r@) == tool_card(item@->Tool_0),
{
    let mut out: Vec<Line> = Vec::new();
    let ghost t = item@->Tool_0;
    match item {
        TimelineItem::ToolInvocation {
            call_id,
            tool_id,
            status,
            arguments,
            output,
            meta,
            expanded,
        } => {
            let id = tool_id.as_str();
            let state = status.as_str();
            put_line(&mut out, draw_tool_head(id, state, *expanded));
            assert(tool_head(t) == tool_head(t));
            let details = if same(id, "list_agents") {
                draw_agents(output, state, *expanded)
            } else if same(id, "read_config") {
                draw_config(output, *expanded)
            } else if same(id, "modify_skill") {
                draw_skill(output)
            } else if is_proposing(id) || is_authorizing(id) {
                draw_proposal(output)
            } else {
                let none: Vec<Line> = Vec::new();
                assert(line_views(none@) =~= seq![]);
                none
            };
            assert(line_views(details@) == kind_rows(t));
            put_lines(&mut out, details);
            if *expanded {
                put_line(
                    &mut out,
                    line2(
                        span("  call id: ", ink(Color::DarkGray)),
                        span(call_id.as_str(), ink(Color::DarkGray)),
                    ),
                );
                let known = draw_meta(state, output, meta);
                assert(known@ == meta_text(t));
                put_line(&mut out, note("  meta: ", known.as_str()));
                put_lines(&mut out, draw_document("  arguments:", arguments));
                put_lines(&mut out, draw_document("  output:", output));
            }
            assert(line_views(out@) =~= tool_card(t));
        },
        _ => {},
    }
    out
}

// ---- what a delegation looks like --------------------------------------------------------

/// A text in one line, or a short form of a document where there is none.
pub open spec fn brief(text: Option<Seq<char>>, value: JsonTree) -> Seq<char> {
    match text {
        Some(s) => one_line(s, 1, 72),
        None => preview_value(value, 72),
    }
}

fn brief_of(text: &Option<String>, value: &Json) -> (r: String)
    ensures
        r@ == brief(opt_view(*text), value@),
{
    match text {
        Some(s) => preview_in_line(s.as_str(), 1, 72),
        None => preview_json_value(value, 72),
    }
}

/// Rows of labels and values.
pub open spec fn pair_rows(pairs: Seq<(Seq<char>, Seq<char>)>) -> Seq<LineView> {
    pairs.map_values(|p: (Seq<char>, Seq<char>)| pair_row(p.0, p.1))
}

fn draw_pairs(pairs: &Vec<(String, String)>) -> (r: Vec<Line>)
    ensures
        line_views(r@) == pair_rows(pair_views(pairs@)),
{
    let mut out: Vec<Line> = Vec::new();
    let ghost all = pair_rows(pair_views(pairs@));
    let mut i: usize = 0;
    assert(line_views(out@) =~= all.take(0));
    while i < pairs.len()
        invariant
            i <= pairs@.len(),
            all == pair_rows(pair_views(pairs@)),
            line_views(out@) == all.take(i as int),
        decreases pairs@.len() - i,
    {
        let ghost before = line_views(out@);
        put_line(&mut out, kv_row(pairs[i].0.as_str(), pairs[i].1.as_str()));
        assert(all.take(i + 1) =~= before.push(all[i as int]));
        i = i + 1;
    }
    assert(all.take(i as int) =~= all);
    out
}

/// What a sub-agent was asked: the fields of the call, with the instruction as its task.
pub open spec fn input_pairs(d: DelegateView) -> Seq<(Seq<char>, Seq<char>)> {
    let fields = key_values(d.arguments, 5, seq![]);
    let has_task = exists|i: int| 0 <= i < fields.len() && (#[trigger] fields[i]).0 == "task"@;
    let with_task = match d.instruction {
        Some(s) if !has_task => seq![("task"@, one_line(s, 2, 90))] + fields,
        _ => fields,
    };
    if with_task.len() == 0 {
        seq![("task"@, brief(d.instruction, d.arguments))]
    } else {
        with_task
    }
}

fn list_input(arguments: &Json, instruction: &Option<String>) -> (r: Vec<(String, String)>)
    ensures
        forall|d: DelegateView|
            d.arguments == arguments@ && d.instruction == opt_view(*instruction) ==> pair_views(r@)
                == #[trigger] input_pairs(d),
{
    let none: Vec<String> = Vec::new();
    assert(views(none@) =~= seq![]);
    let mut fields = key_values_from_json(arguments, 5, &none);
    let ghost all = key_values(arguments@, 5, seq![]);
    assert(fields@.len() == all.len());
    let mut has_task = false;
    let mut i: usize = 0;
    while i < fields.len() && !has_task
        invariant
            i <= fields@.len(),
            pair_views(fields@) == all,
            has_task ==> exists|k: int| 0 <= k < all.len() && (#[trigger] all[k]).0 == "task"@,
            !has_task ==> forall|k: int| 0 <= k < i ==> (#[trigger] all[k]).0 != "task"@,
        decreases fields@.len() - i,
    {
        assert(all[i as int] == (fields@[i as int].0@, fields@[i as int].1@));
        if same(fields[i].0.as_str(), "task") {
            has_task = true;
        }
        i = i + 1;
    }
    match instruction {
        Some(s) => {
            if !has_task {
                let task = preview_in_line(s.as_str(), 2, 90);
                fields.insert(0, ("task".to_owned(), task));
                assert(pair_views(fields@) =~= seq![("task"@, task@)] + all);
            }
        },
        None => {},
    }
    if fields.len() == 0 {
        let task = brief_of(instruction, arguments);
        fields.push(("task".to_owned(), task));
        assert(all.len() == 0);
        assert(pair_views(fields@) =~= seq![("task"@, task@)]);
    }
    fields
}

/// The fields of an output that are not listed under their own names, since other rows show them.
pub open spec fn shown_elsewhere() -> Seq<Seq<char>> {
    seq!["summary"@, "error"@, "thread_id"@, "run_id"@, "timestamp"@, "tools"@]
}

fn list_shown_elsewhere() -> (r: Vec<String>)
    ensures
        views(r@) == shown_elsewhere(),
{
    let r = vec![
        "summary".to_owned(),
        "error".to_owned(),
        "thread_id".to_owned(),
        "run_id".to_owned(),
        "timestamp".to_owned(),
        "tools".to_owned(),
    ];
    assert(views(r@) =~= shown_elsewhere());
    r
}

/// When a delegation took place.
pub open spec fn delegate_time(d: DelegateView) -> Seq<char> {
    match d.meta {
        Some(MetaView { ts: Some(ts), .. }) => ts,
        _ => text_or(d.output.field_text("timestamp"@), "n/a"@),
    }
}

/// How long a delegation took: as the output says it, or in seconds.
pub open spec fn delegate_duration(output: JsonTree) -> Seq<char> {
    match output.field("duration"@) {
        Some(JsonTree::Text(s)) => s,
        Some(value) => match value.number() {
            Some(n) => decimal(n) + "s"@,
            None => "n/a"@,
        },
        None => "n/a"@,
    }
}

fn time_of(meta: &Option<TimelineRenderMeta>, output: &Json) -> (r: String)
    ensures
        forall|d: DelegateView|
            d.output == output@ && d.meta == meta_view(*meta) ==> r@ == #[trigger] delegate_time(d),
{
    match meta {
        Some(m) => match &m.ts {
            Some(ts) => return ts.clone(),
            None => {},
        },
        None => {},
    }
    match output.get_str("timestamp") {
        Some(s) => s,
        None => "n/a".to_owned(),
    }
}

fn duration_of(output: &Json) -> (r: String)
    ensures
        r@ == delegate_duration(output@),
{
    match output.get("duration") {
        Some(value) => match value {
            Json::Text(s) => s.clone(),
            _ => match value.as_u64() {
                Some(n) => cat(to_decimal(n).as_str(), "s"),
                None => "n/a".to_owned(),
            },
        },
        None => "n/a".to_owned(),
    }
}

/// The rows of a delegation that has been opened.
pub open spec fn delegate_details(d: DelegateView) -> Seq<LineView> {
    let tools = tool_usage(d.output);
    seq![
        header_row("State"@),
        pair_row("status"@, status_word(d.status)),
        pair_row("agent"@, text_or(d.target_agent, "unknown-agent"@)),
        row(seq![]),
        header_row("Input"@),
    ] + pair_rows(input_pairs(d)) + seq![
        row(seq![]),
        header_row("Output"@),
        pair_row("summary"@, brief(d.summary, d.output)),
    ] + pair_rows(key_values(d.output, 3, shown_elsewhere())) + seq![
        pair_row("error"@, text_or(d.error, "none"@)),
    ] + (if tools.len() > 0 {
        seq![row(seq![]), header_row("Tools"@)] + pair_rows(tools)
    } else {
        seq![]
    }) + seq![
        row(seq![]),
        header_row("Details"@),
        pair_row("thread_id"@, compacted(d.thread_id)),
        pair_row("run_id"@, compacted(d.run_id)),
        pair_row("timestamp"@, delegate_time(d)),
        pair_row("duration"@, delegate_duration(d.output)),
        pair_row("call_id"@, compacted(Some(d.call_id))),
    ]
}

/// The rows of a delegation.
pub open spec fn delegate_card(d: DelegateView) -> Seq<LineView> {
    (if d.expanded {
        delegate_details(d)
    } else {
        seq![
            pair_row("Args"@, brief(d.instruction, d.arguments)),
            pair_row("Output"@, brief(d.summary, d.output)),
            pair_row("Error"@, text_or(d.error, "none"@)),
        ]
    }) + seq![
        row(seq![]),
        row(
            seq![
                chip(
                    text_or(d.target_agent, "unknown-agent"@),
                    bold(on(Color::Rgb(255, 237, 183), Color::Rgb(89, 76, 33))),
                ),
                piece(" "@, plain()),
                piece(status_word(d.status), status_ink(d.status)),
            ],
        ),
    ]
}

fn or_word(value: &Option<String>, otherwise: &str) -> (r: String)
    ensures
        r@ == text_or(opt_view(*value), otherwise@),
{
    match value {
        Some(s) => s.clone(),
        None => otherwise.to_owned(),
    }
}

fn draw_delegate_details(item: &TimelineItem) -> (r: Vec<Line>)
    requires
        item is DelegateInvocation,
    ensures
        line_views(r@) == delegate_details(item@->Delegate_0),
{
    let mut out: Vec<Line> = Vec::new();
    let ghost d = item@->Delegate_0;
    match item {
        TimelineItem::DelegateInvocation {
            call_id,
            status,
            target_agent,
            thread_id,
            run_id,
            instruction,
            summary,
            error,
            arguments,
            output,
            meta,
            expanded,
        } => {
            put_line(&mut out, section_header("State"));
            put_line(&mut out, kv_row("status", pretty_status(status.as_str()).as_str()));
            put_line(&mut out, kv_row("agent", or_word(target_agent, "unknown-agent").as_str()));
            put_line(&mut out, line0());
            put_line(&mut out, section_header("Input"));
            let input = list_input(arguments, instruction);
            assert(pair_views(input@) == input_pairs(d));
            put_lines(&mut out, draw_pairs(&input));
            put_line(&mut out, line0());
            put_line(&mut out, section_header("Output"));
            put_line(&mut out, kv_row("summary", brief_of(summary, output).as_str()));
            let fields = key_values_from_json(output, 3, &list_shown_elsewhere());
            put_lines(&mut out, draw_pairs(&fields));
            put_line(&mut out, kv_row("error", or_word(error, "none").as_str()));
            let tools = collect_tool_usage(output);
            let ghost before = line_views(out@);
            assert(tools@.len() == pair_views(tools@).len());
            if tools.len() > 0 {
                put_line(&mut out, line0());
                put_line(&mut out, section_header("Tools"));
                put_lines(&mut out, draw_pairs(&tools));
            }
            put_line(&mut out, line0());
            put_line(&mut out, section_header("Details"));
            put_line(&mut out, kv_row("thread_id", compact_id(thread_id).as_str()));
            put_line(&mut out, kv_row("run_id", compact_id(run_id).as_str()));
            let time = time_of(meta, output);
            assert(time@ == delegate_time(d));
            put_line(&mut out, kv_row("timestamp", time.as_str()));
            put_line(&mut out, kv_row("duration", duration_of(output).as_str()));
            let call = Some(call_id.clone());
            put_line(&mut out, kv_row("call_id", compact_id(&call).as_str()));
            assert(line_views(out@) =~= delegate_details(d));
        },
        _ => {},
    }
    out
}

fn draw_delegate(item: &TimelineItem) -> (r: Vec<Line>)
    requires
        item is DelegateInvocation,
    ensures
        line_views(r@) == delegate_card(item@->Delegate_0),
{
    let mut out: Vec<Line> = Vec::new();
    let ghost d = item@->Delegate_0;
    match item {
        TimelineItem::DelegateInvocation {
            call_id,
            status,
            target_agent,
            thread_id,
            run_id,
            instruction,
            summary,
            error,
            arguments,
            output,
            meta,
            expanded,
        } => {
            if *expanded {
                out = draw_delegate_details(item);
            } else {
                put_line(&mut out, kv_row("Args", brief_of(instruction, arguments).as_str()));
                put_line(&mut out, kv_row("Output", brief_of(summary, output).as_str()));
                put_line(&mut out, kv_row("Error", or_word(error, "none").as_str()));
            }
            put_line(&mut out, line0());
            let target = or_word(target_agent, "unknown-agent");
            put_line(
                &mut out,
                line3(
                    badge_chip(
                        target.as_str(),
                        bold(on(Color::Rgb(255, 237, 183), Color::Rgb(89, 76, 33))),
                    ),
                    raw(" "),
                    span(pretty_status(status.as_str()).as_str(), status_style(status.as_str())),
                ),
            );
            assert(line_views(out@) =~= delegate_card(d));
        },
        _ => {},
    }
    out
}

// ---- the frame of a card -----------------------------------------------------------------

/// The background of a card.
pub open spec fn card_back(item: ItemView, selected: bool) -> Color {
    let is_user = item is Text && item->role is User;
    if is_user {
        if selected {
            Color::Rgb(33, 63, 108)
        } else {
            Color::Rgb(20, 36, 62)
        }
    } else if selected {
        Color::Rgb(58, 58, 74)
    } else {
        Color::Rgb(24, 24, 31)
    }
}

/// The style under a card.
pub open spec fn card_ink(item: ItemView, selected: bool) -> Style {
    Style { fg: None, bg: Some(card_back(item, selected)), bold: selected }
}

/// The style of the bar at the left of a card.
pub open spec fn gutter_ink(item: ItemView, selected: bool, focused: bool) -> Style {
    on(
        if selected && focused {
            Color::Rgb(104, 181, 255)
        } else {
            Color::Rgb(70, 70, 84)
        },
        card_back(item, selected),
    )
}

/// A row of a card with the bar in front, which takes up two columns, and, where a width is given,
/// filled up to it.
pub open spec fn framed_row(
    line: LineView,
    item: ItemView,
    selected: bool,
    width: Option<usize>,
    focused: bool,
) -> LineView {
    let style = card_ink(item, selected);
    let inner = match width {
        Some(w) => filled(line, w - 2, style),
        None => line,
    };
    LineView {
        style,
        spans: seq![
            piece(
                if selected {
                    "┃"@
                } else {
                    " "@
                },
                gutter_ink(item, selected, focused),
            ),
            piece(" "@, style),
        ] + inner.spans,
    }
}

/// The rows of a card before they are framed.
pub open spec fn card_rows(item: ItemView, label: Seq<char>) -> Seq<LineView> {
    match item {
        ItemView::Text { role, text, expanded } => message_card(role, text, expanded, label),
        ItemView::Tool(t) => tool_card(t),
        ItemView::Delegate(d) => delegate_card(d),
    }
}

/// The rows of a card.
pub open spec fn item_lines(
    item: ItemView,
    selected: bool,
    label: Seq<char>,
    width: Option<usize>,
    focused: bool,
) -> Seq<LineView> {
    card_rows(item, label).map_values(
        |line: LineView| framed_row(line, item, selected, width, focused),
    )
}

fn frame_line(
    line: Line,
    style: Style,
    gutter: Style,
    selected: bool,
    width: Option<usize>,
) -> (r: Line)
    ensures
        forall|item: ItemView, focused: bool|
            style == card_ink(item, selected) && gutter == gutter_ink(item, selected, focused)
                ==> r@ == #[trigger] framed_row(line@, item, selected, width, focused),
        width matches Some(w) ==> row_width(r@.spans) >= w,
{
    let mark = if selected {
        "┃"
    } else {
        " "
    };
    proof {
        reveal_strlit(" ");
        reveal_strlit("┃");
        assert(" "@ =~= blanks(1));
    }
    let gutter_columns = crate::chat::paint::width(mark) + crate::chat::paint::width(" ");
    let inner = match width {
        Some(w) => fill(
            line,
            if w > gutter_columns {
                w - gutter_columns
            } else {
                0
            },
            style,
        ),
        None => line,
    };
    let mut spans: Vec<Span> = Vec::new();
    spans.push(span(mark, gutter));
    spans.push(span(" ", style));
    let ghost rest = inner@.spans;
    let mut more = inner.spans;
    spans.append(&mut more);
    let r = Line { style, spans };
    proof {
        let bar = seq![piece(mark@, gutter), piece(" "@, style)];
        assert(r@.spans =~= bar + rest);
        crate::chat::paint::lemma_row_width_add(bar, rest);
        assert(bar.drop_last() =~= seq![piece(mark@, gutter)]);
        assert(bar.drop_last().drop_last() =~= seq![]);
        reveal_with_fuel(row_width, 3);
    }
    r
}

impl TimelineItem {
    /// A message. One that is long enough starts out folded up.
    pub fn text(role: MessageRoleTag, text: String) -> (r: TimelineItem)
        ensures
            r@ == (ItemView::Text { role, text: text@, expanded: !collapsible(text@) }),
    {
        let expanded = !text_is_collapsible(text.as_str());
        TimelineItem::Text { role, text, expanded }
    }

    /// The rows of the card.
    pub fn lines(
        &self,
        selected: bool,
        assistant_label: &str,
        selected_fill_width: Option<usize>,
        timeline_focused: bool,
    ) -> (r: Vec<Line>)
        ensures
            line_views(r@) == item_lines(
                self@,
                selected,
                assistant_label@,
                selected_fill_width,
                timeline_focused,
            ),
            selected_fill_width matches Some(w) ==> forall|i: int|
                0 <= i < r@.len() ==> row_width((#[trigger] r@[i])@.spans) >= w,
    {
        let inner = match self {
            TimelineItem::Text { role, text, expanded } => draw_message(
                *role,
                text.as_str(),
                *expanded,
                assistant_label,
            ),
            TimelineItem::ToolInvocation { .. } => draw_tool(self),
            TimelineItem::DelegateInvocation { .. } => draw_delegate(self),
        };
        let ghost rows = card_rows(self@, assistant_label@);
        assert(line_views(inner@) == rows);
        let style = if selected {
            self.selected_card_style()
        } else {
            self.base_card_style()
        };
        let gutter = self.card_gutter_style(selected, timeline_focused);
        let ghost f = |line: LineView|
            framed_row(line, self@, selected, selected_fill_width, timeline_focused);
        let ghost want = rows.map_values(f);
        let mut out: Vec<Line> = Vec::new();
        let mut rest = inner;
        let ghost total = rest@.len();
        assert(line_views(out@) =~= seq![]);
        assert(want.skip(total as int) + line_views(out@) =~= seq![]);
        assert(rows.take(total as int) =~= rows);
        while rest.len() > 0
            invariant
                rest@.len() <= total == rows.len(),
                line_views(rest@) == rows.take(rest@.len() as int),
                f == (|line: LineView|
                    framed_row(line, self@, selected, selected_fill_width, timeline_focused)),
                want == rows.map_values(f),
                style == card_ink(self@, selected),
                gutter == gutter_ink(self@, selected, timeline_focused),
                line_views(out@) == want.skip(rest@.len() as int),
                selected_fill_width matches Some(w) ==> forall|i: int|
                    0 <= i < out@.len() ==> row_width((#[trigger] out@[i])@.spans) >= w,
            decreases rest@.len(),
        {
            let ghost n = rest@.len();
            assert(line_views(rest@)[n - 1] == rest@[n - 1]@);
            let line = rest.pop().unwrap();
            assert(line@ == rows[n - 1]);
            let ghost before = line_views(out@);
            let framed = frame_line(line, style, gutter, selected, selected_fill_width);
            assert(framed@ == framed_row(
                line@,
                self@,
                selected,
                selected_fill_width,
                timeline_focused,
            ));
            out.insert(0, framed);
            proof {
                assert(line_views(out@) =~= seq![framed@] + before);
                assert(want[n - 1] == framed@);
                assert(want.skip(n - 1) =~= seq![framed@] + want.skip(n as int));
                assert(line_views(rest@) =~= rows.take(n - 1));
            }
        }
        assert(want.skip(0) =~= want);
        out
    }

    /// The style under a card that is not selected.
    pub fn base_card_style(&self) -> (r: Style)
        ensures
            r == card_ink(self@, false),
    {
        Style { fg: None, bg: Some(self.base_card_bg()), bold: false }
    }

    /// The style under a card that is selected.
    pub fn selected_card_style(&self) -> (r: Style)
        ensures
            r == card_ink(self@, true),
    {
        Style { fg: None, bg: Some(self.selected_card_bg()), bold: true }
    }

    /// The style of the bar at the left of a card.
    pub fn card_gutter_style(&self, selected: bool, timeline_focused: bool) -> (r: Style)
        ensures
            r == gutter_ink(self@, selected, timeline_focused),
    {
        let back = if selected {
            self.selected_card_bg()
        } else {
            self.base_card_bg()
        };
        let front = if selected && timeline_focused {
            Color::Rgb(104, 181, 255)
        } else {
            Color::Rgb(70, 70, 84)
        };
        on(front, back)
    }

    /// The background of a card that is not selected.
    pub fn base_card_bg(&self) -> (r: Color)
        ensures
            r == card_back(self@, false),
    {
        match self {
            TimelineItem::Text { role: MessageRoleTag::User, .. } => Color::Rgb(20, 36, 62),
            _ => Color::Rgb(24, 24, 31),
        }
    }

    /// The background of a card that is selected.
    pub fn selected_card_bg(&self) -> (r: Color)
        ensures
            r == card_back(self@, true),
    {
        match self {
            TimelineItem::Text { role: MessageRoleTag::User, .. } => Color::Rgb(33, 63, 108),
            _ => Color::Rgb(58, 58, 74),
        }
    }
}

// ---- snapshots, folding and links --------------------------------------------------------

/// What is known of an event, as a document.
pub open spec fn meta_tree(meta: Option<MetaView>) -> JsonTree {
    match meta {
        Some(m) => JsonTree::Object(
            seq![
                (
                    "seq"@,
                    match m.seq {
                        Some(n) => number_tree(n as nat),
                        None => JsonTree::Null,
                    },
                ),
                ("ts"@, text_or_null(m.ts)),
                (
                    "redaction_applied"@,
                    match m.redaction_applied {
                        Some(b) => JsonTree::Bool(b),
                        None => JsonTree::Null,
                    },
                ),
            ],
        ),
        None => JsonTree::Null,
    }
}

fn meta_document(meta: &Option<TimelineRenderMeta>) -> (r: Json)
    ensures
        r@ == meta_tree(meta_view(*meta)),
{
    match meta {
        Some(m) => {
            let mut entries: Vec<(String, Json)> = Vec::new();
            let n = match m.seq {
                Some(n) => json::number(n),
                None => Json::Null,
            };
            put_entry(&mut entries, "seq", n);
            put_entry(&mut entries, "ts", opt_text(&m.ts));
            let flag = match m.redaction_applied {
                Some(b) => Json::Bool(b),
                None => Json::Null,
            };
            put_entry(&mut entries, "redaction_applied", flag);
            let r = object(entries);
            assert(r@->Object_0 =~= meta_tree(meta_view(*meta))->Object_0);
            r
        },
        None => Json::Null,
    }
}

/// A card as a document: who it is from, of which kind it is, and what it holds.
pub open spec fn snapshot(item: ItemView) -> JsonTree {
    match item {
        ItemView::Text { role, text, .. } => JsonTree::Object(
            seq![
                ("role"@, JsonTree::Text(ascii_lower(role.name()))),
                ("type"@, JsonTree::Text("text"@)),
                ("content"@, JsonTree::Text(text)),
            ],
        ),
        ItemView::Tool(t) => JsonTree::Object(
            seq![
                ("role"@, JsonTree::Text("tool"@)),
                ("type"@, JsonTree::Text("tool_invocation"@)),
                ("call_id"@, JsonTree::Text(t.call_id)),
                ("tool_id"@, JsonTree::Text(t.tool_id)),
                ("status"@, JsonTree::Text(t.status)),
                ("arguments"@, t.arguments),
                ("output"@, t.output),
                ("meta"@, meta_tree(t.meta)),
            ],
        ),
        ItemView::Delegate(d) => JsonTree::Object(
            seq![
                ("role"@, JsonTree::Text("tool"@)),
                ("type"@, JsonTree::Text("delegate_to_agent"@)),
                ("call_id"@, JsonTree::Text(d.call_id)),
                ("status"@, JsonTree::Text(d.status)),
                ("target_agent"@, text_or_null(d.target_agent)),
                ("thread_id"@, text_or_null(d.thread_id)),
                ("run_id"@, text_or_null(d.run_id)),
                ("instruction"@, text_or_null(d.instruction)),
                ("summary"@, text_or_null(d.summary)),
                ("error"@, text_or_null(d.error)),
                ("arguments"@, d.arguments),
                ("output"@, d.output),
                ("meta"@, meta_tree(d.meta)),
            ],
        ),
    }
}

/// A card can be folded up and opened.
pub open spec fn foldable(item: ItemView) -> bool {
    match item {
        ItemView::Text { text, .. } => collapsible(text),
        _ => true,
    }
}

/// A card folded up if it was open and opened if it was folded up.
pub open spec fn flipped(item: ItemView) -> ItemView {
    match item {
        ItemView::Text { role, text, expanded } => ItemView::Text {
            role,
            text,
            expanded: if collapsible(text) {
                !expanded
            } else {
                expanded
            },
        },
        ItemView::Tool(t) => ItemView::Tool(ToolView { expanded: !t.expanded, ..t }),
        ItemView::Delegate(d) => ItemView::Delegate(DelegateView { expanded: !d.expanded, ..d }),
    }
}

/// The thread that a card leads to.
pub open spec fn link(item: ItemView) -> Option<Seq<char>> {
    match item {
        ItemView::Text { .. } => None,
        ItemView::Tool(t) => if t.tool_id == "delegate_to_agent"@ {
            t.output.field_text("thread_id"@)
        } else {
            None
        },
        ItemView::Delegate(d) => d.thread_id,
    }
}

impl TimelineItem {
    /// The card as a document.
    pub fn to_snapshot_value(&self) -> (r: Json)
        ensures
            r@ == snapshot(self@),
    {
        let mut entries: Vec<(String, Json)> = Vec::new();
        match self {
            TimelineItem::Text { role, text, .. } => {
                put_entry(&mut entries, "role", Json::Text(to_ascii_lower(role.label())));
                put_entry(&mut entries, "type", json::text("text"));
                put_entry(&mut entries, "content", json::text(text.as_str()));
            },
            TimelineItem::ToolInvocation {
                call_id,
                tool_id,
                status,
                arguments,
                output,
                meta,
                ..
            } => {
                put_entry(&mut entries, "role", json::text("tool"));
                put_entry(&mut entries, "type", json::text("tool_invocation"));
                put_entry(&mut entries, "call_id", json::text(call_id.as_str()));
                put_entry(&mut entries, "tool_id", json::text(tool_id.as_str()));
                put_entry(&mut entries, "status", json::text(status.as_str()));
                put_entry(&mut entries, "arguments", arguments.copy());
                put_entry(&mut entries, "output", output.copy());
                put_entry(&mut entries, "meta", meta_document(meta));
            },
            TimelineItem::DelegateInvocation {
                call_id,
                status,
                target_agent,
                thread_id,
                run_id,
                instruction,
                summary,
                error,
                arguments,
                output,
                meta,
                ..
            } => {
                put_entry(&mut entries, "role", json::text("tool"));
                put_entry(&mut entries, "type", json::text("delegate_to_agent"));
                put_entry(&mut entries, "call_id", json::text(call_id.as_str()));
                put_entry(&mut entries, "status", json::text(status.as_str()));
                put_entry(&mut entries, "target_agent", opt_text(target_agent));
                put_entry(&mut entries, "thread_id", opt_text(thread_id));
                put_entry(&mut entries, "run_id", opt_text(run_id));
                put_entry(&mut entries, "instruction", opt_text(instruction));
                put_entry(&mut entries, "summary", opt_text(summary));
                put_entry(&mut entries, "error", opt_text(error));
                put_entry(&mut entries, "arguments", arguments.copy());
                put_entry(&mut entries, "output", output.copy());
                put_entry(&mut entries, "meta", meta_document(meta));
            },
        }
        let r = object(entries);
        assert(r@->Object_0 =~= snapshot(self@)->Object_0);
        r
    }

    /// Folds the card up if it is open and opens it if it is folded up.
    pub fn toggle(&mut self)
        ensures
            final(self)@ == flipped(old(self)@),
    {
        match self {
            TimelineItem::Text { text, expanded, .. } => {
                if text_is_collapsible(text.as_str()) {
                    *expanded = !*expanded;
                }
            },
            TimelineItem::ToolInvocation { expanded, .. } => {
                *expanded = !*expanded;
            },
            TimelineItem::DelegateInvocation { expanded, .. } => {
                *expanded = !*expanded;
            },
        }
    }

    /// Whether the card can be folded up and opened.
    pub fn is_toggleable(&self) -> (r: bool)
        ensures
            r == foldable(self@),
    {
        match self {
            TimelineItem::Text { text, .. } => text_is_collapsible(text.as_str()),
            TimelineItem::ToolInvocation { .. } => true,
            TimelineItem::DelegateInvocation { .. } => true,
        }
    }

    /// The thread that the card leads to.
    pub fn linked_thread_id(&self) -> (r: Option<String>)
        ensures
            opt_view(r) == link(self@),
    {
        match self {
            TimelineItem::Text { .. } => None,
            TimelineItem::ToolInvocation { output, tool_id, .. } => {
                if !same(tool_id.as_str(), "delegate_to_agent") {
                    return None;
                }
                output.get_str("thread_id")
            },
            TimelineItem::DelegateInvocation { thread_id, .. } => copy_opt(thread_id),
        }
    }
}

// ---- laws --------------------------------------------------------------------------------

/// Folding a card and opening it again, or the other way round, gives back the card.
pub proof fn flipping_twice(item: ItemView)
    ensures
        flipped(flipped(item)) == item,
{
}

/// A card that cannot be folded stays as it is.
pub proof fn flipping_the_unfoldable(item: ItemView)
    requires
        !foldable(item),
    ensures
        flipped(item) == item,
{
}

/// Whether a card is folded up is no part of its snapshot, nor of where it leads.
pub proof fn snapshots_ignore_folding(item: ItemView)
    ensures
        snapshot(flipped(item)) == snapshot(item),
        link(flipped(item)) == link(item),
{
}

/// Selecting a card, or giving it a width, changes how its rows look, never how many there are.
pub proof fn selecting_keeps_the_rows(
    item: ItemView,
    label: Seq<char>,
    a: (bool, Option<usize>, bool),
    b: (bool, Option<usize>, bool),
)
    ensures
        item_lines(item, a.0, label, a.1, a.2).len() == item_lines(item, b.0, label, b.1, b.2).len(),
{
}

/// The text of each span of a row.
pub open spec fn contents(spans: Seq<SpanView>) -> Seq<Seq<char>> {
    Seq::new(spans.len(), |i: int| spans[i].content)
}

/// Selecting a card changes the mark in front of its rows, and nothing of the text behind it.
pub proof fn selecting_keeps_the_text(
    item: ItemView,
    label: Seq<char>,
    width: Option<usize>,
    focused: bool,
    i: int,
)
    requires
        0 <= i < card_rows(item, label).len(),
    ensures
        ({
            let a = item_lines(item, true, label, width, focused)[i].spans;
            let b = item_lines(item, false, label, width, focused)[i].spans;
            &&& contents(a.take(2)) == seq!["┃"@, " "@]
            &&& contents(b.take(2)) == seq![" "@, " "@]
            &&& contents(a.skip(2)) == contents(b.skip(2))
        }),
{
    let a = item_lines(item, true, label, width, focused)[i].spans;
    let b = item_lines(item, false, label, width, focused)[i].spans;
    assert(contents(a.take(2)) =~= seq!["┃"@, " "@]);
    assert(contents(b.take(2)) =~= seq![" "@, " "@]);
    assert(contents(a.skip(2)) =~= contents(b.skip(2)));
}

/// Every row of a card begins with the bar.
pub proof fn every_row_has_the_bar(
    item: ItemView,
    selected: bool,
    label: Seq<char>,
    width: Option<usize>,
    focused: bool,
    i: int,
)
    requires
        0 <= i < item_lines(item, selected, label, width, focused).len(),
    ensures
        item_lines(item, selected, label, width, focused)[i].spans.len() >= 2,
        item_lines(item, selected, label, width, focused)[i].spans[0].style == gutter_ink(
            item,
            selected,
            focused,
        ),
        item_lines(item, selected, label, width, focused)[i].style == card_ink(item, selected),
{
}

/// The names of who speaks, and how they are told in colour.
pub proof fn speakers_have_their_names(role: MessageRoleTag)
    ensures
        role.name() == (match role {
            MessageRoleTag::System => "SYSTEM"@,
            MessageRoleTag::User => "USER"@,
            MessageRoleTag::Assistant => "ASSISTANT"@,
        }),
        content_ink(role) == (if role is System {
            ink(Color::DarkGray)
        } else {
            ink(Color::White)
        }),
{
}

/// A message is shown whole where it is short or opened, and else by its preview; line by line, in
/// order, with an empty row around it unless it is the system's. Where it can be folded, the last row
/// says how.
pub proof fn messages_are_shown_line_by_line(
    role: MessageRoleTag,
    text: Seq<char>,
    expanded: bool,
    label: Seq<char>,
    i: int,
)
    ensures
        ({
            let card = message_card(role, text, expanded, label);
            let off: int = if role is System {
                0
            } else {
                1
            };
            let source = if expanded || !collapsible(text) {
                lines(text)
            } else {
                preview(text, 3, 220)
            };
            let rows = if source.len() == 0 {
                1int
            } else {
                source.len() as int
            };
            let hint: int = if collapsible(text) {
                1
            } else {
                0
            };
            &&& card.len() == rows + hint + 2 * off
            &&& source.len() > 0 ==> card[off].spans.last().content == source[0]
            &&& source.len() == 0 ==> card[off].spans.last().content.len() == 0
            &&& 0 < i < source.len() ==> card[off + i].spans.last().content == source[i]
                && card[off + i].spans.len() == 2 && card[off + i].spans[0].content == "  "@
            &&& hint == 1 && expanded ==> card[off + rows].spans[0].content == "  "@
                + "[expanded] Space to collapse"@
            &&& hint == 1 && !expanded ==> card[off + rows].spans[0].content == "  "@
                + "[collapsed] Space to expand"@
            &&& off == 1 ==> card[0].spans.len() == 0 && card.last().spans.len() == 0
        }),
{
}

/// A message begins with a mark of who speaks: the prompt for the user, the name of the assistant in
/// small letters, or the word for the system.
pub proof fn messages_begin_with_who_speaks(role: MessageRoleTag, label: Seq<char>, first: Seq<char>)
    ensures
        role is User ==> message_head(role, label, first).spans.len() == 2 && message_head(
            role,
            label,
            first,
        ).spans[0].content == "> "@,
        role is Assistant ==> message_head(role, label, first).spans.len() == 3 && message_head(
            role,
            label,
            first,
        ).spans[0].content == " "@ + ascii_lower(label) + " "@,
        role is System ==> message_head(role, label, first).spans.len() == 3 && message_head(
            role,
            label,
            first,
        ).spans[0].content == " "@ + "system"@ + " "@,
        message_head(role, label, first).spans.last().content == first,
        message_head(role, label, first).spans.last().style == content_ink(role),
{
}

/// The tools that propose, adapt and authorize.
pub proof fn tools_have_their_kinds(id: Seq<char>)
    ensures
        proposes(id) <==> (id == "propose_config_change"@ || id == "propose_skill_add"@ || id
            == "propose_skill_update"@ || id == "propose_agent_add"@ || id
            == "propose_agent_update"@),
        adapts(id) <==> (proposes(id) || id == "list_proposals"@ || id == "get_proposal"@ || id
            == "analyze_failures"@ || id == "score_skills"@ || id == "adapt_routing"@ || id
            == "record_lesson"@ || id == "run_redteam_eval"@ || id == "list_audit_records"@),
        authorizes(id) <==> (id == "authorize_proposal"@ || id == "apply_authorized_proposal"@),
        id == "list_agents"@ ==> tool_chip(id).content == " "@ + "agents"@ + " "@,
        id == "read_config"@ && id != "list_agents"@ ==> tool_chip(id).content == " "@ + "config"@
            + " "@,
        id == "modify_skill"@ && id != "list_agents"@ && id != "read_config"@ ==> tool_chip(id).content
            == " "@ + "skill"@ + " "@,
        id != "list_agents"@ && id != "read_config"@ && id != "modify_skill"@ && adapts(id)
            ==> tool_chip(id).content == " "@ + "adapt"@ + " "@,
        id != "list_agents"@ && id != "read_config"@ && id != "modify_skill"@ && !adapts(id)
            && authorizes(id) ==> tool_chip(id).content == " "@ + "auth"@ + " "@,
        id != "list_agents"@ && id != "read_config"@ && id != "modify_skill"@ && !adapts(id)
            && !authorizes(id) ==> tool_chip(id).content == " "@ + "tool"@ + " "@,
{
}

/// The head of a tool's card names the tool and how it stands, and says whether it is opened.
pub proof fn tool_heads_say_how_they_stand(t: ToolView)
    ensures
        contents(tool_head(t).spans) == seq![
            tool_chip(t.tool_id).content,
            " "@,
            t.tool_id,
            " status="@,
            t.status,
            if t.expanded {
                " [expanded]"@
            } else {
                " [collapsed]"@
            },
        ],
        tool_head(t).spans[4].style == status_ink(t.status),
{
    assert(contents(tool_head(t).spans) =~= seq![
        tool_chip(t.tool_id).content,
        " "@,
        t.tool_id,
        " status="@,
        t.status,
        if t.expanded {
            " [expanded]"@
        } else {
            " [collapsed]"@
        },
    ]);
}

/// Of two fields the first that has a text counts; identifiers are cut to eight characters.
pub proof fn the_first_text_counts(v: JsonTree, a: Seq<char>, b: Seq<char>, otherwise: Seq<char>)
    ensures
        v.field_text(a) matches Some(s) ==> either_text(v, a, b, otherwise) == s && either_id(v, a, b)
            == clipped(s, 8),
        v.field_text(a) is None && v.field_text(b) is Some ==> either_text(v, a, b, otherwise)
            == v.field_text(b)->0 && either_id(v, a, b) == clipped(v.field_text(b)->0, 8),
        v.field_text(a) is None && v.field_text(b) is None ==> either_text(v, a, b, otherwise)
            == otherwise && either_id(v, a, b) == "-"@,
{
}

/// A list of agents says how many there are and shows each with what is known of it; four of them
/// while it is folded, and then how many more there are.
pub proof fn agents_are_listed(output: JsonTree, status: Seq<char>, expanded: bool, i: int)
    ensures
        ({
            let agents = match output.field("agents"@) {
                Some(list) => list.items(),
                None => Seq::empty(),
            };
            let rows = agents_rows(output, status, expanded);
            let shown: int = if expanded || agents.len() <= 4 {
                agents.len() as int
            } else {
                4
            };
            &&& rows[0].spans[0].content == "  agents: "@
            &&& rows[0].spans[1].content == decimal(agents.len()) + " found"@
            &&& rows.len() == 1 + shown + (if shown < agents.len() {
                1int
            } else {
                0int
            })
            &&& 0 <= i < shown ==> contents(rows[1 + i].spans) == seq![
                "  - "@,
                either_text(agents[i], "agent_id"@, "id"@, "unknown"@),
                " ["@,
                either_text(agents[i], "state"@, "status"@, "unknown"@),
                "] "@,
                "thread="@,
                either_id(agents[i], "thread_id"@, "latest_thread_id"@),
                " run="@,
                either_id(agents[i], "run_id"@, "latest_run_id"@),
            ]
            &&& shown < agents.len() ==> rows.last().spans[0].content == "  ... "@ + decimal(
                (agents.len() - 4) as nat,
            ) + " more (expand for full list)"@
        }),
{
    let agents = agents_in(output);
    let rows = agents_rows(output, status, expanded);
    let shown: int = if expanded || agents.len() <= 4 {
        agents.len() as int
    } else {
        4
    };
    assert(agents =~= (match output.field("agents"@) {
        Some(list) => list.items(),
        None => Seq::empty(),
    }));
    if 0 <= i < shown {
        assert(rows[1 + i] == agent_row(agents[i], status));
        assert(contents(rows[1 + i].spans) =~= seq![
            "  - "@,
            either_text(agents[i], "agent_id"@, "id"@, "unknown"@),
            " ["@,
            either_text(agents[i], "state"@, "status"@, "unknown"@),
            "] "@,
            "thread="@,
            either_id(agents[i], "thread_id"@, "latest_thread_id"@),
            " run="@,
            either_id(agents[i], "run_id"@, "latest_run_id"@),
        ]);
    }
}

/// A configuration says how many sections it has, names them, and says whether anything is left out
/// of it.
pub proof fn configurations_are_summed_up(output: JsonTree, expanded: bool)
    ensures
        ({
            let sections = in_order(output.keys());
            let rows = config_rows(output, expanded);
            let shown = if expanded || sections.len() <= 6 {
                joined(sections, ", "@)
            } else {
                joined(sections.take(6), ", "@)
            };
            let at: int = if shown.len() > 0 {
                2
            } else {
                1
            };
            &&& rows[0].spans[1].content == decimal(sections.len()) + " top-level sections"@
            &&& shown.len() > 0 ==> rows[1].spans[0].content == "  sections: "@
                && rows[1].spans[1].content == shown
            &&& rows[at].spans[0].content == "  redaction: "@
            &&& rows[at].spans[1].content == (if redacted(output) {
                "yes"@
            } else {
                "no"@
            })
            &&& !expanded && sections.len() > 6 ==> rows.len() == at + 2
                && rows.last().spans[0].content == "  ... "@ + decimal((sections.len() - 6) as nat)
                + " more sections (expand for full snapshot)"@
            &&& expanded || sections.len() <= 6 ==> rows.len() == at + 1
        }),
{
    let sections = in_order(output.keys());
    assert(sections.take(sections.len() as int) =~= sections);
    if sections.len() == 6 {
        assert(sections.take(6) =~= sections);
    }
}

/// What a skill or a proposal came to is shown with its reason or its state.
pub proof fn outcomes_are_shown(output: JsonTree)
    ensures
        skill_rows(output).len() == 2,
        skill_rows(output)[0].spans[0].content == "  action: "@,
        skill_rows(output)[0].spans[1].content == either_text(output, "status"@, "result"@, "unknown"@),
        skill_rows(output)[1].spans[0].content == "  reason: "@,
        skill_rows(output)[1].spans[1].content == one_line(
            either_text(output, "reason"@, "error"@, "n/a"@),
            1,
            180,
        ),
        proposal_rows(output).len() == 2,
        proposal_rows(output)[0].spans[0].content == "  proposal: "@,
        proposal_rows(output)[1].spans[0].content == "  state: "@,
        output.field_text("proposal_id"@) matches Some(s) ==> proposal_rows(output)[0].spans[1].content
            == s,
        output.field_text("state"@) matches Some(s) ==> proposal_rows(output)[1].spans[1].content == s,
        output.field_text("state"@) is None && output.field("proposal"@) is Some && output.field(
            "proposal"@,
        )->0.field_text("state"@) is Some ==> proposal_rows(output)[1].spans[1].content
            == output.field("proposal"@)->0.field_text("state"@)->0,
        output.field_text("proposal_id"@) is None && output.field("proposal"@) is None
            ==> proposal_rows(output)[0].spans[1].content == "n/a"@,
{
}

/// A card of a tool shows what its kind has to show, and when it is opened also the call, what is
/// known of it, the arguments and the output.
pub proof fn tool_cards_open_up(t: ToolView, i: int)
    ensures
        tool_card(t)[0] == tool_head(t),
        !t.expanded ==> tool_card(t) == seq![tool_head(t)] + kind_rows(t),
        t.expanded ==> ({
            let n = 1 + kind_rows(t).len() as int;
            let arguments = lines(pretty_text(t.arguments));
            let output = lines(pretty_text(t.output));
            let card = tool_card(t);
            &&& card.len() == n + 4 + arguments.len() + output.len()
            &&& card[n].spans[1].content == t.call_id
            &&& card[n + 1].spans[0].content == "  meta: "@
            &&& card[n + 1].spans[1].content == meta_text(t)
            &&& card[n + 2].spans[0].content == "  arguments:"@
            &&& card[n + 3 + arguments.len()].spans[0].content == "  output:"@
            &&& 0 <= i < arguments.len() ==> card[n + 3 + i].spans[0].content == "    "@
                + arguments[i]
            &&& 0 <= i < output.len() ==> card[n + 4 + arguments.len() + i].spans[0].content
                == "    "@ + output[i]
        }),
        t.tool_id == "list_agents"@ ==> kind_rows(t) == agents_rows(t.output, t.status, t.expanded),
        proposes(t.tool_id) && t.tool_id != "list_agents"@ && t.tool_id != "read_config"@ && t.tool_id
            != "modify_skill"@ ==> kind_rows(t) == proposal_rows(t.output),
        authorizes(t.tool_id) && t.tool_id != "list_agents"@ && t.tool_id != "read_config"@
            && t.tool_id != "modify_skill"@ ==> kind_rows(t) == proposal_rows(t.output),
        t.tool_id == "read_config"@ && t.tool_id != "list_agents"@ ==> kind_rows(t) == config_rows(
            t.output,
            t.expanded,
        ),
        t.tool_id == "modify_skill"@ && t.tool_id != "list_agents"@ && t.tool_id != "read_config"@
            ==> kind_rows(t) == skill_rows(t.output),
        !proposes(t.tool_id) && !authorizes(t.tool_id) && t.tool_id != "list_agents"@ && t.tool_id
            != "read_config"@ && t.tool_id != "modify_skill"@ ==> kind_rows(t).len() == 0,
{
    if !t.expanded {
        assert(tool_card(t) =~= seq![tool_head(t)] + kind_rows(t));
    }
}

/// What is known of a call is its state, the thread and the run, and the event behind it.
pub proof fn calls_tell_their_event(t: ToolView, seq: Option<u64>, ts: Option<Seq<char>>, flag: Option<bool>)
    requires
        t.meta == Some(MetaView { seq, ts, redaction_applied: flag }),
    ensures
        meta_text(t) == "status="@ + t.status + " thread="@ + either_id(
            t.output,
            "thread_id"@,
            "thread_id"@,
        ) + " run="@ + either_id(t.output, "run_id"@, "run_id"@) + " seq="@ + (match seq {
            Some(n) => decimal(n as nat),
            None => "n/a"@,
        }) + " ts="@ + (match ts {
            Some(s) => s,
            None => "n/a"@,
        }) + " redacted="@ + (match flag {
            Some(b) => if b {
                "yes"@
            } else {
                "no"@
            },
            None => "n/a"@,
        }),
{
}

/// What was asked of an agent is listed by its fields, with the instruction first unless a field has
/// it; where there is neither, it is shown in short.
pub proof fn input_is_listed(d: DelegateView)
    ensures
        ({
            let fields = key_values(d.arguments, 5, Seq::empty());
            let named = exists|i: int| 0 <= i < fields.len() && (#[trigger] fields[i]).0 == "task"@;
            &&& d.instruction is Some && !named ==> input_pairs(d) == seq![
                ("task"@, one_line(d.instruction->0, 2, 90)),
            ] + fields
            &&& fields.len() > 0 && (d.instruction is None || named) ==> input_pairs(d) == fields
            &&& fields.len() == 0 && d.instruction is None ==> input_pairs(d) == seq![
                ("task"@, preview_value(d.arguments, 72)),
            ]
        }),
{
}

/// When work was handed on, and how long it took.
pub proof fn work_tells_its_time(d: DelegateView)
    ensures
        d.meta matches Some(m) ==> m.ts matches Some(ts) ==> delegate_time(d) == ts,
        d.meta is None && d.output.field_text("timestamp"@) is Some ==> delegate_time(d)
            == d.output.field_text("timestamp"@)->0,
        d.meta is None && d.output.field_text("timestamp"@) is None ==> delegate_time(d) == "n/a"@,
        d.output.field("duration"@) is None ==> delegate_duration(d.output) == "n/a"@,
        d.output.field_text("duration"@) matches Some(s) ==> delegate_duration(d.output) == s,
        d.output.field("duration"@) matches Some(v) ==> v.number() matches Some(n) ==> delegate_duration(
            d.output,
        ) == decimal(n) + "s"@,
{
}

/// A folded card of handed-on work shows what was asked, what came of it and what went wrong, and
/// below them the agent and how the work stands; an opened one shows all of it.
pub proof fn work_cards_open_up(d: DelegateView, i: int)
    ensures
        ({
            let card = delegate_card(d);
            let agent = match d.target_agent {
                Some(s) => s,
                None => "unknown-agent"@,
            };
            let error = match d.error {
                Some(s) => s,
                None => "none"@,
            };
            &&& card.last().spans[0].content == " "@ + agent + " "@
            &&& card.last().spans[2].content == status_word(d.status)
            &&& card.last().spans[2].style == status_ink(d.status)
            &&& card[card.len() - 2].spans.len() == 0
            &&& !d.expanded ==> card.len() == 5 && card[0] == pair_row(
                "Args"@,
                match d.instruction {
                    Some(s) => one_line(s, 1, 72),
                    None => preview_value(d.arguments, 72),
                },
            ) && card[1] == pair_row(
                "Output"@,
                match d.summary {
                    Some(s) => one_line(s, 1, 72),
                    None => preview_value(d.output, 72),
                },
            ) && card[2] == pair_row("Error"@, error)
            &&& d.expanded ==> ({
                let inputs = input_pairs(d);
                let outputs = key_values(d.output, 3, shown_elsewhere());
                let n = inputs.len() as int;
                let m = outputs.len() as int;
                &&& card[0] == header_row("State"@)
                &&& card[1] == pair_row("status"@, status_word(d.status))
                &&& card[2] == pair_row("agent"@, agent)
                &&& card[4] == header_row("Input"@)
                &&& 0 <= i < n ==> card[5 + i] == pair_row(inputs[i].0, inputs[i].1)
                &&& card[6 + n] == header_row("Output"@)
                &&& card[7 + n] == pair_row(
                    "summary"@,
                    match d.summary {
                        Some(s) => one_line(s, 1, 72),
                        None => preview_value(d.output, 72),
                    },
                )
                &&& 0 <= i < m ==> card[8 + n + i] == pair_row(outputs[i].0, outputs[i].1)
                &&& card[8 + n + m] == pair_row("error"@, error)
                &&& card[card.len() - 8] == header_row("Details"@)
                &&& card[card.len() - 7] == pair_row("thread_id"@, compacted(d.thread_id))
                &&& card[card.len() - 6] == pair_row("run_id"@, compacted(d.run_id))
                &&& card[card.len() - 5] == pair_row("timestamp"@, delegate_time(d))
                &&& card[card.len() - 4] == pair_row("duration"@, delegate_duration(d.output))
                &&& card[card.len() - 3] == pair_row("call_id"@, compacted(Some(d.call_id)))
            })
        }),
{
    let card = delegate_card(d);
    if d.expanded {
        let inputs = input_pairs(d);
        let outputs = key_values(d.output, 3, shown_elsewhere());
        assert(pair_rows(inputs).len() == inputs.len());
        assert(pair_rows(outputs).len() == outputs.len());
        assert(card == delegate_details(d) + card.skip(delegate_details(d).len() as int));
    }
}

/// Cards of the user have their own background, and so has the card that is selected; only the bar of
/// a selected card in focus is bright.
pub proof fn cards_are_told_by_their_colour(item: ItemView, selected: bool, focused: bool)
    ensures
        ({
            let mine = item matches ItemView::Text { role, .. } && role is User;
            &&& mine && selected ==> card_back(item, selected) == Color::Rgb(33, 63, 108)
            &&& mine && !selected ==> card_back(item, selected) == Color::Rgb(20, 36, 62)
            &&& !mine && selected ==> card_back(item, selected) == Color::Rgb(58, 58, 74)
            &&& !mine && !selected ==> card_back(item, selected) == Color::Rgb(24, 24, 31)
        }),
        card_ink(item, selected) == (Style {
            fg: None,
            bg: Some(card_back(item, selected)),
            bold: selected,
        }),
        gutter_ink(item, selected, focused).fg == Some(
            if selected && focused {
                Color::Rgb(104, 181, 255)
            } else {
                Color::Rgb(70, 70, 84)
            },
        ),
        gutter_ink(item, selected, focused).bg == Some(card_back(item, selected)),
{
}

/// A card has a row for each of its lines, with the line behind the bar.
pub proof fn cards_have_all_their_lines(
    item: ItemView,
    selected: bool,
    label: Seq<char>,
    focused: bool,
    i: int,
)
    requires
        0 <= i < card_rows(item, label).len(),
    ensures
        item_lines(item, selected, label, None, focused).len() == card_rows(item, label).len(),
        item_lines(item, selected, label, None, focused)[i].spans.skip(2) == card_rows(
            item,
            label,
        )[i].spans,
        item matches ItemView::Text { role, text, expanded } ==> card_rows(item, label) == message_card(
            role,
            text,
            expanded,
            label,
        ),
        item matches ItemView::Tool(t) ==> card_rows(item, label) == tool_card(t),
        item matches ItemView::Delegate(d) ==> card_rows(item, label) == delegate_card(d),
{
    let line = card_rows(item, label)[i];
    assert(item_lines(item, selected, label, None, focused)[i].spans.skip(2) =~= line.spans);
}

/// What can be folded: a long text, and any call. Opening or closing a card changes nothing else
/// about it.
pub proof fn folding_changes_only_the_fold(item: ItemView)
    ensures
        item matches ItemView::Text { role, text, expanded } ==> (foldable(item) <==> collapsible(
            text,
        )) && (flipped(item) matches ItemView::Text { role: r, text: t, expanded: e } && r == role
            && t == text && (e != expanded <==> collapsible(text))),
        item matches ItemView::Tool(t) ==> foldable(item) && (flipped(item) matches ItemView::Tool(u)
            && u == (ToolView { expanded: !t.expanded, ..t })),
        item matches ItemView::Delegate(d) ==> foldable(item) && (
        flipped(item) matches ItemView::Delegate(e) && e == (DelegateView {
            expanded: !d.expanded,
            ..d
        })),
{
}

/// A card leads to the thread that its work was handed to.
pub proof fn work_leads_to_its_thread(item: ItemView)
    ensures
        item is Text ==> link(item) is None,
        item matches ItemView::Delegate(d) ==> link(item) == d.thread_id,
        item matches ItemView::Tool(t) ==> (t.tool_id == "delegate_to_agent"@ ==> link(item)
            == t.output.field_text("thread_id"@)) && (t.tool_id != "delegate_to_agent"@ ==> link(
            item,
        ) is None),
{
}

proof fn lemma_snapshot_names()
    ensures
        "role"@.len() == 4 && "type"@.len() == 4 && "role"@[0] == 'r' && "type"@[0] == 't',
        "content"@.len() == 7 && "call_id"@.len() == 7 && "tool_id"@.len() == 7 && "call_id"@[0] == 'c'
            && "tool_id"@[0] == 't',
        "status"@.len() == 6 && "output"@.len() == 6 && "run_id"@.len() == 6 && "status"@[0] == 's'
            && "output"@[0] == 'o' && "run_id"@[0] == 'r',
        "arguments"@.len() == 9 && "thread_id"@.len() == 9 && "arguments"@[0] == 'a' && "thread_id"@[0]
            == 't',
        "meta"@.len() == 4 && "meta"@[0] == 'm',
        "target_agent"@.len() == 12 && "instruction"@.len() == 11 && "summary"@.len() == 7
            && "summary"@[0] == 's' && "error"@.len() == 5,
        "seq"@.len() == 3 && "ts"@.len() == 2 && "redaction_applied"@.len() == 17,
{
    reveal_strlit("role");
    reveal_strlit("type");
    reveal_strlit("content");
    reveal_strlit("call_id");
    reveal_strlit("tool_id");
    reveal_strlit("status");
    reveal_strlit("output");
    reveal_strlit("run_id");
    reveal_strlit("arguments");
    reveal_strlit("thread_id");
    reveal_strlit("meta");
    reveal_strlit("target_agent");
    reveal_strlit("instruction");
    reveal_strlit("summary");
    reveal_strlit("error");
    reveal_strlit("seq");
    reveal_strlit("ts");
    reveal_strlit("redaction_applied");
}

/// A snapshot of a card holds all that the card was made of, under its names.
pub proof fn snapshots_hold_the_whole_card(item: ItemView)
    ensures
        ({
            let s = snapshot(item);
            match item {
                ItemView::Text { role, text, .. } => {
                    &&& s.field_text("type"@) == Some("text"@)
                    &&& s.field_text("content"@) == Some(text)
                    &&& s.field_text("role"@) == Some(ascii_lower(role.name()))
                },
                ItemView::Tool(t) => {
                    &&& s.field_text("type"@) == Some("tool_invocation"@)
                    &&& s.field_text("role"@) == Some("tool"@)
                    &&& s.field_text("call_id"@) == Some(t.call_id)
                    &&& s.field_text("tool_id"@) == Some(t.tool_id)
                    &&& s.field_text("status"@) == Some(t.status)
                    &&& s.field("arguments"@) == Some(t.arguments)
                    &&& s.field("output"@) == Some(t.output)
                    &&& s.field("meta"@) == Some(meta_tree(t.meta))
                },
                ItemView::Delegate(d) => {
                    &&& s.field_text("type"@) == Some("delegate_to_agent"@)
                    &&& s.field_text("role"@) == Some("tool"@)
                    &&& s.field_text("call_id"@) == Some(d.call_id)
                    &&& s.field_text("status"@) == Some(d.status)
                    &&& s.field_text("target_agent"@) == d.target_agent
                    &&& s.field_text("thread_id"@) == d.thread_id
                    &&& s.field_text("run_id"@) == d.run_id
                    &&& s.field_text("instruction"@) == d.instruction
                    &&& s.field_text("summary"@) == d.summary
                    &&& s.field_text("error"@) == d.error
                    &&& s.field("arguments"@) == Some(d.arguments)
                    &&& s.field("output"@) == Some(d.output)
                    &&& s.field("meta"@) == Some(meta_tree(d.meta))
                },
            }
        }),
{
    lemma_snapshot_names();
    reveal_with_fuel(crate::json::entry, 14);
}

/// What is known of an event is kept in a snapshot.
pub proof fn snapshots_hold_the_event(m: MetaView)
    ensures
        meta_tree(None) is Null,
        m.seq matches Some(n) ==> meta_tree(Some(m)).field("seq"@) == Some(number_tree(n as nat)),
        meta_tree(Some(m)).field_text("ts"@) == m.ts,
        m.redaction_applied matches Some(b) ==> meta_tree(Some(m)).field("redaction_applied"@) == Some(
            JsonTree::Bool(b),
        ),
{
    lemma_snapshot_names();
    reveal_with_fuel(crate::json::entry, 4);
}

/// A card holds all that it was made of, and so does what is known of its event.
pub proof fn cards_are_told_whole(item: TimelineItem, m: TimelineRenderMeta)
    ensures
        m@.seq == m.seq,
        m@.ts == opt_view(m.ts),
        m@.redaction_applied == m.redaction_applied,
        item matches TimelineItem::Text { role, text, expanded } ==> item@ == (ItemView::Text {
            role,
            text: text@,
            expanded,
        }),
        item matches TimelineItem::ToolInvocation {
            call_id,
            tool_id,
            status,
            arguments,
            output,
            meta,
            expanded,
        } ==> (item@ matches ItemView::Tool(t) && t.call_id == call_id@ && t.tool_id == tool_id@
            && t.status == status@ && t.arguments == arguments@ && t.output == output@ && t.expanded
            == expanded),
        item matches TimelineItem::DelegateInvocation {
            call_id,
            status,
            target_agent,
            thread_id,
            run_id,
            instruction,
            summary,
            error,
            arguments,
            output,
            meta,
            expanded,
        } ==> (item@ matches ItemView::Delegate(d) && d.call_id == call_id@ && d.status == status@
            && d.target_agent == opt_view(target_agent) && d.thread_id == opt_view(thread_id)
            && d.run_id == opt_view(run_id) && d.instruction == opt_view(instruction) && d.summary
            == opt_view(summary) && d.error == opt_view(error) && d.arguments == arguments@
            && d.output == output@ && d.expanded == expanded),
{
}

} // verus!

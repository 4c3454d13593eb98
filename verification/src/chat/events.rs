//! From the recorded events of a thread to the cards of its conversation.

use vstd::prelude::*;
use crate::chat::preview::collapsible;
use crate::chat::timeline::{
    meta_view, text_or, DelegateView, ItemView, MessageRoleTag, MetaView, TimelineItem,
    TimelineRenderMeta, ToolView,
};
use crate::json::{compact, compact_text, Json, JsonTree};
use crate::rpc::{OrchestratorThreadGetParams, OrchestratorThreadGetResult, ThreadEvent};
use crate::text::{at_most, cat, cat3, opt_view, same, text_le};

verus! {

/// How many events are asked for at a time.
pub const DEFAULT_THREAD_PAGE_LIMIT: usize = 200;

/// Whose thread it is.
#[derive(Debug, Clone, Copy, PartialEq, Eq, Structural)]
pub enum ThreadKind {
    System,
    Subagent,
}

// ---- fetching ----------------------------------------------------------------------------

/// One event comes before another, or at the same place.
pub open spec fn event_le(a: ThreadEvent, b: ThreadEvent) -> bool {
    a.seq < b.seq || (a.seq == b.seq && text_le(a.ts@, b.ts@))
}

/// The place for an event among events in order: behind all that come before it or at the same
/// place.
pub open spec fn event_place(list: Seq<ThreadEvent>, e: ThreadEvent) -> int
    decreases list.len(),
{
    if list.len() == 0 || event_le(list.last(), e) {
        list.len() as int
    } else {
        event_place(list.drop_last(), e)
    }
}

/// Events in their order. Those at the same place stay as they came.
pub open spec fn events_in_order(list: Seq<ThreadEvent>) -> Seq<ThreadEvent>
    decreases list.len(),
{
    if list.len() == 0 {
        list
    } else {
        let front = events_in_order(list.drop_last());
        front.insert(event_place(front, list.last()), list.last())
    }
}

proof fn lemma_event_place(list: Seq<ThreadEvent>, e: ThreadEvent)
    ensures
        0 <= event_place(list, e) <= list.len(),
        event_place(list, e) > 0 ==> event_le(list[event_place(list, e) - 1], e),
        forall|j: int| event_place(list, e) <= j < list.len() ==> !event_le(#[trigger] list[j], e),
    decreases list.len(),
{
    if list.len() > 0 && !event_le(list.last(), e) {
        lemma_event_place(list.drop_last(), e);
        assert forall|j: int| event_place(list, e) <= j < list.len() implies !event_le(
            #[trigger] list[j],
            e,
        ) by {
            if j < list.len() - 1 {
                assert(list.drop_last()[j] == list[j]);
            }
        }
    }
}

fn event_at_most(a: &ThreadEvent, b: &ThreadEvent) -> (r: bool)
    ensures
        r == event_le(*a, *b),
{
    a.seq < b.seq || (a.seq == b.seq && at_most(a.ts.as_str(), b.ts.as_str()))
}

/// Puts events in their order. Those at the same place stay as they came.
pub fn sort_events(events: Vec<ThreadEvent>) -> (r: Vec<ThreadEvent>)
    ensures
        r@ == events_in_order(events@),
{
    let ghost all = events@;
    let mut rest = events;
    let mut out: Vec<ThreadEvent> = Vec::new();
    proof {
        assert(all.take(0) =~= Seq::<ThreadEvent>::empty());
        assert(events_in_order(all.take(0)) =~= Seq::<ThreadEvent>::empty());
        assert(all.skip(0) =~= all);
    }
    while rest.len() > 0
        invariant
            rest@.len() <= all.len(),
            rest@ == all.skip(all.len() - rest@.len()),
            out@ == events_in_order(all.take(all.len() - rest@.len())),
        decreases rest@.len(),
    {
        let ghost k = all.len() - rest@.len();
        let e = rest.remove(0);
        proof {
            assert(all[k] == e);
            assert(rest@ =~= all.skip(k + 1));
            assert(all.take(k + 1).drop_last() =~= all.take(k));
        }
        let mut at: usize = out.len();
        while at > 0 && !event_at_most(&out[at - 1], &e)
            invariant
                at <= out@.len(),
                forall|j: int| at <= j < out@.len() ==> !event_le(#[trigger] out@[j], e),
            decreases at,
        {
            at = at - 1;
        }
        proof {
            lemma_event_place(out@, e);
            let p = event_place(out@, e);
            if p < at {
                assert(!event_le(out@[at - 1], e));
            }
            if at < p {
                assert(!event_le(out@[p - 1], e));
            }
        }
        out.insert(at, e);
    }
    assert(all.take(all.len() as int) =~= all);
    out
}

/// Putting events in order keeps them all and leaves none out of place.
pub proof fn ordering_keeps_events(list: Seq<ThreadEvent>)
    ensures
        events_in_order(list).to_multiset() == list.to_multiset(),
        events_in_order(list).len() == list.len(),
        forall|i: int, j: int|
            0 <= i < j < events_in_order(list).len() ==> event_le(
                #[trigger] events_in_order(list)[i],
                #[trigger] events_in_order(list)[j],
            ),
    decreases list.len(),
{
    if list.len() > 0 {
        let front = events_in_order(list.drop_last());
        let e = list.last();
        let p = event_place(front, e);
        let after = events_in_order(list);
        ordering_keeps_events(list.drop_last());
        lemma_event_place(front, e);
        vstd::seq_lib::to_multiset_insert(front, p, e);
        assert(list =~= list.drop_last().push(e));
        vstd::seq_lib::to_multiset_build(list.drop_last(), e);
        assert forall|i: int, j: int| 0 <= i < j < after.len() implies event_le(
            #[trigger] after[i],
            #[trigger] after[j],
        ) by {
            let a = if i < p {
                front[i]
            } else {
                front[i - 1]
            };
            if i < p && j == p {
                if i < p - 1 {
                    assert(event_le(front[i], front[p - 1]));
                    lemma_event_le_transitive(front[i], front[p - 1], e);
                }
            } else if i == p {
                assert(!event_le(front[j - 1], e));
                lemma_event_le_total(front[j - 1], e);
            } else if i < p && j > p {
                assert(event_le(front[i], front[j - 1]));
            } else if i > p {
                assert(event_le(front[i - 1], front[j - 1]));
            } else {
                assert(event_le(front[i], front[j]));
            }
        }
    } else {
        assert(list.to_multiset() =~= events_in_order(list).to_multiset());
    }
}

proof fn lemma_event_le_transitive(a: ThreadEvent, b: ThreadEvent, c: ThreadEvent)
    requires
        event_le(a, b),
        event_le(b, c),
    ensures
        event_le(a, c),
{
    crate::text::text_order_is_total();
    let o = crate::text::text_order();
    assert(o(a.ts@, b.ts@) == text_le(a.ts@, b.ts@));
    assert(o(b.ts@, c.ts@) == text_le(b.ts@, c.ts@));
    assert(o(a.ts@, c.ts@) == text_le(a.ts@, c.ts@));
}

proof fn lemma_event_le_total(a: ThreadEvent, b: ThreadEvent)
    ensures
        event_le(a, b) || event_le(b, a),
{
    crate::text::lemma_text_le_total(a.ts@, b.ts@);
}

/// The events of a thread that have come in so far, page by page.
#[derive(Debug)]
pub struct EventPages {
    pub thread_id: String,
    pub events: Vec<ThreadEvent>,
}

impl EventPages {
    /// Nothing has come in yet.
    pub fn new(thread_id: String) -> (r: EventPages)
        ensures
            r.thread_id == thread_id,
            r.events@ == Seq::<ThreadEvent>::empty(),
    {
        EventPages { thread_id, events: Vec::new() }
    }

    /// What to ask for next: the events after those that have come in.
    pub fn request(&self) -> (r: OrchestratorThreadGetParams)
        ensures
            r.thread_id == self.thread_id,
            r.offset == Some(self.events@.len() as usize),
            r.limit == Some(DEFAULT_THREAD_PAGE_LIMIT),
    {
        OrchestratorThreadGetParams {
            thread_id: self.thread_id.clone(),
            offset: Some(self.events.len()),
            limit: Some(DEFAULT_THREAD_PAGE_LIMIT),
        }
    }

    /// Takes in a page, and says whether there is more to ask for: an empty page is the last, and
    /// so is one that completes the total.
    pub fn accept(&mut self, page: OrchestratorThreadGetResult) -> (more: bool)
        ensures
            final(self).thread_id == old(self).thread_id,
            final(self).events@ == old(self).events@ + page.events@,
            more == (page.events@.len() > 0 && final(self).events@.len() < page.total),
    {
        if page.events.len() == 0 {
            assert(self.events@ + page.events@ =~= self.events@);
            return false;
        }
        let mut new = page.events;
        self.events.append(&mut new);
        self.events.len() < page.total
    }

    /// All that came in, in order.
    pub fn finish(self) -> (r: Vec<ThreadEvent>)
        ensures
            r@ == events_in_order(self.events@),
    {
        sort_events(self.events)
    }
}

// ---- cards -------------------------------------------------------------------------------

/// A message of the system, as a card.
pub open spec fn message(role: MessageRoleTag, text: Seq<char>) -> ItemView {
    ItemView::Text { role, text, expanded: !collapsible(text) }
}

/// What the first of two documents says in a field that is a text.
pub open spec fn field_of_either(a: JsonTree, b: JsonTree, key: Seq<char>) -> Option<Seq<char>> {
    match a.field_text(key) {
        Some(s) => Some(s),
        None => b.field_text(key),
    }
}

/// The card of a call. Handing work to another agent has a card of its own kind.
pub open spec fn call_card(
    call_id: Seq<char>,
    tool_id: Seq<char>,
    status: Seq<char>,
    arguments: JsonTree,
    output: JsonTree,
    meta: Option<MetaView>,
) -> ItemView {
    if tool_id == "delegate_to_agent"@ {
        ItemView::Delegate(
            DelegateView {
                call_id,
                status,
                target_agent: field_of_either(arguments, output, "agent_id"@),
                thread_id: output.field_text("thread_id"@),
                run_id: output.field_text("run_id"@),
                instruction: arguments.field_text("instruction"@),
                summary: output.field_text("summary"@),
                error: match output.field_text("error"@) {
                    Some(s) => Some(s),
                    None => if status == "error"@ {
                        Some(compact_text(output))
                    } else {
                        None
                    },
                },
                arguments,
                output,
                meta,
                expanded: false,
            },
        )
    } else {
        ItemView::Tool(
            ToolView { call_id, tool_id, status, arguments, output, meta, expanded: false },
        )
    }
}

/// The card of a call. Handing work to another agent has a card of its own kind.
pub fn tool_item_from_parts(
    call_id: String,
    tool_id: String,
    status: String,
    arguments: Json,
    output: Json,
    meta: Option<TimelineRenderMeta>,
) -> (r: TimelineItem)
    ensures
        r@ == call_card(
            call_id@,
            tool_id@,
            status@,
            arguments@,
            output@,
            meta_view(meta),
        ),
{
    if same(tool_id.as_str(), "delegate_to_agent") {
        let target_agent = match arguments.get_str("agent_id") {
            Some(s) => Some(s),
            None => output.get_str("agent_id"),
        };
        let thread_id = output.get_str("thread_id");
        let run_id = output.get_str("run_id");
        let instruction = arguments.get_str("instruction");
        let summary = output.get_str("summary");
        let error = match output.get_str("error") {
            Some(s) => Some(s),
            None => if same(status.as_str(), "error") {
                Some(compact(&output))
            } else {
                None
            },
        };
        TimelineItem::DelegateInvocation {
            call_id,
            status,
            target_agent,
            thread_id,
            run_id,
            instruction,
            summary,
            error,
            arguments,
            output,
            meta,
            expanded: false,
        }
    } else {
        TimelineItem::ToolInvocation {
            call_id,
            tool_id,
            status,
            arguments,
            output,
            meta,
            expanded: false,
        }
    }
}

/// A call whose result has not come in.
#[derive(Debug)]
pub struct OpenCall {
    pub call_id: String,
    pub tool_id: String,
    pub arguments: Json,
}

pub struct OpenCallView {
    pub call_id: Seq<char>,
    pub tool_id: Seq<char>,
    pub arguments: JsonTree,
}

impl View for OpenCall {
    type V = OpenCallView;

    open spec fn view(&self) -> OpenCallView {
        OpenCallView {
            call_id: self.call_id@,
            tool_id: self.tool_id@,
            arguments: self.arguments@,
        }
    }
}

/// How far a thread has been read: the cards so far, the calls without a result, and whether the
/// user has said anything.
pub struct Reading {
    pub items: Seq<ItemView>,
    pub open: Seq<OpenCallView>,
    pub saw_user: bool,
}

/// The position of the open call with the given identifier, or the number of open calls.
pub open spec fn open_index(open: Seq<OpenCallView>, call_id: Seq<char>) -> int
    decreases open.len(),
{
    if open.len() == 0 || open[0].call_id == call_id {
        0
    } else {
        1 + open_index(open.drop_first(), call_id)
    }
}

/// No two open calls have the same identifier.
pub open spec fn calls_distinct(open: Seq<OpenCallView>) -> bool {
    forall|i: int, j: int|
        0 <= i < j < open.len() ==> (#[trigger] open[i]).call_id != (#[trigger] open[j]).call_id
}

/// The field of a document, or nothing.
pub open spec fn field_or_null(v: JsonTree, key: Seq<char>) -> JsonTree {
    match v.field(key) {
        Some(value) => value,
        None => JsonTree::Null,
    }
}

/// What a field says, or a word for nothing.
pub open spec fn said(v: JsonTree, key: Seq<char>, otherwise: Seq<char>) -> Seq<char> {
    text_or(v.field_text(key), otherwise)
}

/// What a message event says: its content, or the event itself where that is a text.
pub open spec fn content_of(payload: JsonTree) -> Option<Seq<char>> {
    match payload.field_text("content"@) {
        Some(s) => Some(s),
        None => payload.text(),
    }
}

/// What is said when a run has changed its state.
pub open spec fn run_text(payload: JsonTree) -> Seq<char> {
    let summary = said(payload, "summary"@, Seq::empty());
    let error = said(payload, "error"@, Seq::empty());
    let a = "Run state changed: "@ + said(payload, "state"@, "unknown"@);
    let b = if summary.len() > 0 {
        a + " | summary: "@ + summary
    } else {
        a
    };
    if error.len() > 0 {
        b + " | error: "@ + error
    } else {
        b
    }
}

/// What is said when a sub-agent reports.
pub open spec fn report_text(payload: JsonTree) -> Seq<char> {
    let report = field_or_null(payload, "report"@);
    let summary = match report.field_text("description"@) {
        Some(s) => s,
        None => said(report, "summary"@, "report available"@),
    };
    "SUB-AGENT REPORT ["@ + said(payload, "report_type"@, "unknown"@) + "] "@ + summary
}

/// What is said when something went wrong.
pub open spec fn error_text(payload: JsonTree) -> Seq<char> {
    "SYSTEM ERROR ["@ + said(payload, "tool_id"@, "runtime"@) + "::"@ + said(
        payload,
        "call_id"@,
        "n/a"@,
    ) + "] "@ + said(payload, "error"@, "unknown error"@)
}

/// A call as it is announced by an event.
pub open spec fn announced(payload: JsonTree, call_id: Seq<char>) -> OpenCallView {
    OpenCallView {
        call_id,
        tool_id: said(payload, "tool_id"@, "unknown"@),
        arguments: field_or_null(payload, "arguments"@),
    }
}

/// The reading after one more event.
pub open spec fn read_event(st: Reading, e: ThreadEvent) -> Reading {
    let kind = e.event_type@;
    let p = e.payload@;
    if kind == "message_user"@ {
        match content_of(p) {
            Some(s) => Reading {
                items: st.items.push(message(MessageRoleTag::User, s)),
                saw_user: true,
                ..st
            },
            None => st,
        }
    } else if kind == "message_assistant"@ {
        match content_of(p) {
            Some(s) => Reading {
                items: st.items.push(message(MessageRoleTag::Assistant, s)),
                ..st
            },
            None => st,
        }
    } else if kind == "tool_call"@ {
        match p.field_text("call_id"@) {
            Some(id) => {
                let i = open_index(st.open, id);
                Reading {
                    open: if i < st.open.len() {
                        st.open.update(i, announced(p, id))
                    } else {
                        st.open.push(announced(p, id))
                    },
                    ..st
                }
            },
            None => st,
        }
    } else if kind == "tool_result"@ {
        match p.field_text("call_id"@) {
            Some(id) => {
                let i = open_index(st.open, id);
                let call = if i < st.open.len() {
                    st.open[i]
                } else {
                    announced(p, id)
                };
                Reading {
                    items: st.items.push(
                        call_card(
                            id,
                            call.tool_id,
                            said(p, "status"@, "success"@),
                            call.arguments,
                            field_or_null(p, "output"@),
                            Some(
                                MetaView {
                                    seq: Some(e.seq),
                                    ts: Some(e.ts@),
                                    redaction_applied: Some(e.redaction_applied),
                                },
                            ),
                        ),
                    ),
                    open: if i < st.open.len() {
                        st.open.remove(i)
                    } else {
                        st.open
                    },
                    ..st
                }
            },
            None => st,
        }
    } else if kind == "thread_created"@ {
        Reading {
            items: st.items.push(
                message(
                    MessageRoleTag::System,
                    "Thread created for sub-agent '"@ + said(p, "agent_id"@, "unknown"@) + "'"@,
                ),
            ),
            ..st
        }
    } else if kind == "thread_resurrected"@ {
        Reading {
            items: st.items.push(
                message(
                    MessageRoleTag::System,
                    "Thread resurrected and ready for continuation."@,
                ),
            ),
            ..st
        }
    } else if kind == "run_state_changed"@ {
        Reading { items: st.items.push(message(MessageRoleTag::System, run_text(p))), ..st }
    } else if kind == "subagent_report"@ {
        Reading { items: st.items.push(message(MessageRoleTag::System, report_text(p))), ..st }
    } else if kind == "error"@ {
        Reading { items: st.items.push(message(MessageRoleTag::System, error_text(p))), ..st }
    } else {
        st
    }
}

/// The reading after some events.
pub open spec fn read_events(events: Seq<ThreadEvent>) -> Reading
    decreases events.len(),
{
    if events.len() == 0 {
        Reading { items: Seq::empty(), open: Seq::empty(), saw_user: false }
    } else {
        read_event(read_events(events.drop_last()), events.last())
    }
}

/// The card of a call whose result has not come in.
pub open spec fn open_card(call: OpenCallView) -> ItemView {
    call_card(call.call_id, call.tool_id, "pending"@, call.arguments, JsonTree::Null, None)
}

/// The note at the top of a sub-agent's thread that does not show what the agent was asked.
pub open spec fn no_instruction() -> ItemView {
    message(MessageRoleTag::System, "Initial instruction unavailable (legacy run format)"@)
}

/// The cards of a thread: those of its events, then the calls that are still open. A sub-agent's
/// thread in which no user speaks says so first.
pub open spec fn cards(kind: ThreadKind, events: Seq<ThreadEvent>) -> Seq<ItemView> {
    let st = read_events(events);
    let all = st.items + st.open.map_values(|call: OpenCallView| open_card(call));
    if kind is Subagent && !st.saw_user {
        seq![no_instruction()] + all
    } else {
        all
    }
}

/// The cards of a list.
pub open spec fn item_views(items: Seq<TimelineItem>) -> Seq<ItemView> {
    Seq::new(items.len(), |i: int| items[i]@)
}

/// The open calls of a list.
pub open spec fn call_views(open: Seq<OpenCall>) -> Seq<OpenCallView> {
    Seq::new(open.len(), |i: int| open[i]@)
}

fn put_item(items: &mut Vec<TimelineItem>, item: TimelineItem)
    ensures
        item_views(final(items)@) == item_views(old(items)@).push(item@),
{
    let ghost before = item_views(items@);
    items.push(item);
    assert(item_views(items@) =~= before.push(item@));
}

fn content_in(payload: &Json) -> (r: Option<String>)
    ensures
        opt_view(r) == content_of(payload@),
{
    match payload.get_str("content") {
        Some(s) => Some(s),
        None => match payload.as_str() {
            Some(s) => Some(s.to_owned()),
            None => None,
        },
    }
}

fn said_in(v: &Json, key: &str, otherwise: &str) -> (r: String)
    ensures
        r@ == said(v@, key@, otherwise@),
{
    match v.get_str(key) {
        Some(s) => s,
        None => otherwise.to_owned(),
    }
}

fn copy_field(v: &Json, key: &str) -> (r: Json)
    ensures
        r@ == field_or_null(v@, key@),
{
    match v.get(key) {
        Some(value) => value.copy(),
        None => Json::Null,
    }
}

fn say_run(payload: &Json) -> (r: String)
    ensures
        r@ == run_text(payload@),
{
    let summary = match payload.get_str("summary") {
        Some(s) => s,
        None => String::new(),
    };
    let error = match payload.get_str("error") {
        Some(s) => s,
        None => String::new(),
    };
    let mut text = cat(
        "Run state changed: ",
        said_in(payload, "state", "unknown").as_str(),
    );
    if !summary.as_str().is_empty() {
        text.append(" | summary: ");
        text.append(summary.as_str());
    }
    if !error.as_str().is_empty() {
        text.append(" | error: ");
        text.append(error.as_str());
    }
    text
}

fn say_report(payload: &Json) -> (r: String)
    ensures
        r@ == report_text(payload@),
{
    let none = Json::Null;
    let report = match payload.get("report") {
        Some(value) => value,
        None => &none,
    };
    let summary = match report.get_str("description") {
        Some(s) => s,
        None => said_in(report, "summary", "report available"),
    };
    let mut text = cat(
        "SUB-AGENT REPORT [",
        said_in(payload, "report_type", "unknown").as_str(),
    );
    text.append("] ");
    text.append(summary.as_str());
    text
}

fn say_error(payload: &Json) -> (r: String)
    ensures
        r@ == error_text(payload@),
{
    let mut text = cat("SYSTEM ERROR [", said_in(payload, "tool_id", "runtime").as_str());
    text.append("::");
    text.append(said_in(payload, "call_id", "n/a").as_str());
    text.append("] ");
    text.append(said_in(payload, "error", "unknown error").as_str());
    text
}

fn find_open(open: &Vec<OpenCall>, call_id: &str) -> (r: usize)
    ensures
        r == open_index(call_views(open@), call_id@),
        r <= open@.len(),
{
    let ghost all = call_views(open@);
    let mut i: usize = 0;
    assert(all.skip(0) =~= all);
    while i < open.len()
        invariant
            i <= open@.len(),
            all == call_views(open@),
            open_index(all, call_id@) == i + open_index(all.skip(i as int), call_id@),
        decreases open@.len() - i,
    {
        proof {
            assert(all.skip(i as int)[0] == open@[i as int]@);
            assert(all.skip(i as int).drop_first() =~= all.skip(i + 1));
        }
        if same(open[i].call_id.as_str(), call_id) {
            return i;
        }
        i = i + 1;
    }
    i
}

fn announce(payload: &Json, call_id: String) -> (r: OpenCall)
    ensures
        r@ == announced(payload@, call_id@),
{
    OpenCall {
        call_id,
        tool_id: said_in(payload, "tool_id", "unknown"),
        arguments: copy_field(payload, "arguments"),
    }
}

fn take_event(
    items: &mut Vec<TimelineItem>,
    open: &mut Vec<OpenCall>,
    saw_user: bool,
    event: &ThreadEvent,
) -> (saw: bool)
    ensures
        ({
            let before = Reading {
                items: item_views(old(items)@),
                open: call_views(old(open)@),
                saw_user,
            };
            let after = read_event(before, *event);
            &&& item_views(final(items)@) == after.items
            &&& call_views(final(open)@) == after.open
            &&& saw == after.saw_user
        }),
{
    let kind = event.event_type.as_str();
    let p = &event.payload;
    if same(kind, "message_user") {
        match content_in(p) {
            Some(s) => {
                put_item(items, TimelineItem::text(MessageRoleTag::User, s));
                return true;
            },
            None => {},
        }
    } else if same(kind, "message_assistant") {
        match content_in(p) {
            Some(s) => {
                put_item(items, TimelineItem::text(MessageRoleTag::Assistant, s));
            },
            None => {},
        }
    } else if same(kind, "tool_call") {
        match p.get_str("call_id") {
            Some(id) => {
                let ghost before = call_views(open@);
                let i = find_open(open, id.as_str());
                let call = announce(p, id);
                if i < open.len() {
                    open.set(i, call);
                    assert(call_views(open@) =~= before.update(i as int, call@));
                } else {
                    open.push(call);
                    assert(call_views(open@) =~= before.push(call@));
                }
            },
            None => {},
        }
    } else if same(kind, "tool_result") {
        match p.get_str("call_id") {
            Some(id) => {
                let ghost before = call_views(open@);
                let i = find_open(open, id.as_str());
                let call = if i < open.len() {
                    assert(before[i as int] == open@[i as int]@);
                    let call = open.remove(i);
                    assert(call_views(open@) =~= before.remove(i as int));
                    call
                } else {
                    announce(p, id.clone())
                };
                let meta = TimelineRenderMeta {
                    seq: Some(event.seq),
                    ts: Some(event.ts.clone()),
                    redaction_applied: Some(event.redaction_applied),
                };
                put_item(
                    items,
                    tool_item_from_parts(
                        id,
                        call.tool_id,
                        said_in(p, "status", "success"),
                        call.arguments,
                        copy_field(p, "output"),
                        Some(meta),
                    ),
                );
            },
            None => {},
        }
    } else if same(kind, "thread_created") {
        let text = cat3(
            "Thread created for sub-agent '",
            said_in(p, "agent_id", "unknown").as_str(),
            "'",
        );
        put_item(items, TimelineItem::text(MessageRoleTag::System, text));
    } else if same(kind, "thread_resurrected") {
        put_item(
            items,
            TimelineItem::text(
                MessageRoleTag::System,
                "Thread resurrected and ready for continuation.".to_owned(),
            ),
        );
    } else if same(kind, "run_state_changed") {
        put_item(items, TimelineItem::text(MessageRoleTag::System, say_run(p)));
    } else if same(kind, "subagent_report") {
        put_item(items, TimelineItem::text(MessageRoleTag::System, say_report(p)));
    } else if same(kind, "error") {
        put_item(items, TimelineItem::text(MessageRoleTag::System, say_error(p)));
    }
    saw_user
}

/// The cards of a thread, from its events.
pub fn timeline_items_from_events(kind: &ThreadKind, events: &Vec<ThreadEvent>) -> (r: Vec<
    TimelineItem,
>)
    ensures
        item_views(r@) == cards(*kind, events@),
{
    let mut items: Vec<TimelineItem> = Vec::new();
    let mut open: Vec<OpenCall> = Vec::new();
    let mut saw_user = false;
    let mut i: usize = 0;
    proof {
        assert(events@.take(0) =~= Seq::<ThreadEvent>::empty());
        assert(item_views(items@) =~= Seq::empty());
        assert(call_views(open@) =~= Seq::empty());
    }
    while i < events.len()
        invariant
            i <= events@.len(),
            read_events(events@.take(i as int)) == (Reading {
                items: item_views(items@),
                open: call_views(open@),
                saw_user,
            }),
        decreases events@.len() - i,
    {
        assert(events@.take(i + 1).drop_last() =~= events@.take(i as int));
        saw_user = take_event(&mut items, &mut open, saw_user, &events[i]);
        i = i + 1;
    }
    assert(events@.take(i as int) =~= events@);
    let ghost st = read_events(events@);
    let ghost f = |call: OpenCallView| open_card(call);
    let ghost total = open@.len();
    let ghost done = item_views(items@);
    assert(done + st.open.take(0).map_values(f) =~= done);
    assert(st.open.skip(0) =~= st.open);
    while open.len() > 0
        invariant
            open@.len() <= total == st.open.len(),
            call_views(open@) == st.open.skip(total - open@.len()),
            f == (|call: OpenCallView| open_card(call)),
            item_views(items@) == done + st.open.take(total - open@.len()).map_values(f),
        decreases open@.len(),
    {
        let ghost k = total - open@.len();
        let ghost before = call_views(open@);
        assert(before[0] == open@[0]@);
        let call = open.remove(0);
        proof {
            assert(call@ == st.open[k]);
            assert(call_views(open@) =~= before.drop_first());
            assert(call_views(open@) =~= st.open.skip(k + 1));
        }
        put_item(
            &mut items,
            tool_item_from_parts(
                call.call_id,
                call.tool_id,
                "pending".to_owned(),
                call.arguments,
                Json::Null,
                None,
            ),
        );
        proof {
            assert(st.open.take(k + 1).map_values(f) =~= st.open.take(k).map_values(f).push(
                open_card(st.open[k]),
            ));
            assert(item_views(items@) =~= done + st.open.take(k + 1).map_values(f));
        }
    }
    assert(st.open.take(total as int) =~= st.open);
    let ghost all = item_views(items@);
    let is_subagent = match kind {
        ThreadKind::Subagent => true,
        ThreadKind::System => false,
    };
    if is_subagent && !saw_user {
        let note = TimelineItem::text(
            MessageRoleTag::System,
            "Initial instruction unavailable (legacy run format)".to_owned(),
        );
        items.insert(0, note);
        assert(item_views(items@) =~= seq![no_instruction()] + all);
    }
    items
}

// ---- laws --------------------------------------------------------------------------------

/// At no time are two calls with the same identifier open.
pub proof fn open_calls_are_distinct(events: Seq<ThreadEvent>)
    ensures
        calls_distinct(read_events(events).open),
    decreases events.len(),
{
    if events.len() > 0 {
        let st = read_events(events.drop_last());
        let e = events.last();
        open_calls_are_distinct(events.drop_last());
        match e.payload@.field_text("call_id"@) {
            Some(id) => {
                lemma_open_index(st.open, id);
            },
            None => {},
        }
    }
}

proof fn lemma_open_index(open: Seq<OpenCallView>, id: Seq<char>)
    ensures
        0 <= open_index(open, id) <= open.len(),
        open_index(open, id) < open.len() ==> open[open_index(open, id)].call_id == id,
        forall|j: int| 0 <= j < open_index(open, id) ==> (#[trigger] open[j]).call_id != id,
    decreases open.len(),
{
    if open.len() > 0 && open[0].call_id != id {
        lemma_open_index(open.drop_first(), id);
        assert forall|j: int| 0 <= j < open_index(open, id) implies (#[trigger] open[j]).call_id
            != id by {
            if j > 0 {
                assert(open.drop_first()[j - 1] == open[j]);
            }
        }
    }
}

/// Reading on never takes a card away or changes it.
pub proof fn reading_on_keeps_cards(events: Seq<ThreadEvent>, k: int)
    requires
        0 <= k <= events.len(),
    ensures
        read_events(events.take(k)).items.is_prefix_of(read_events(events).items),
    decreases events.len() - k,
{
    if k == events.len() {
        assert(events.take(k) =~= events);
    } else {
        reading_on_keeps_cards(events, k + 1);
        assert(events.take(k + 1).drop_last() =~= events.take(k));
        let a = read_events(events.take(k)).items;
        let b = read_events(events.take(k + 1)).items;
        assert(a.is_prefix_of(b));
    }
}

/// A call whose result comes right after it is announced has a card with its arguments and is no
/// longer open.
pub proof fn result_closes_its_call(st: Reading, call: ThreadEvent, result: ThreadEvent)
    requires
        call.event_type@ == "tool_call"@,
        result.event_type@ == "tool_result"@,
        call.payload@.field_text("call_id"@) is Some,
        call.payload@.field_text("call_id"@) == result.payload@.field_text("call_id"@),
        calls_distinct(st.open),
    ensures
        ({
            let id = call.payload@.field_text("call_id"@)->0;
            let after = read_event(read_event(st, call), result);
            &&& after.items.len() == st.items.len() + 1
            &&& after.items.last() == call_card(
                id,
                said(call.payload@, "tool_id"@, "unknown"@),
                said(result.payload@, "status"@, "success"@),
                field_or_null(call.payload@, "arguments"@),
                field_or_null(result.payload@, "output"@),
                Some(
                    MetaView {
                        seq: Some(result.seq),
                        ts: Some(result.ts@),
                        redaction_applied: Some(result.redaction_applied),
                    },
                ),
            )
            &&& forall|i: int| 0 <= i < after.open.len() ==> (#[trigger] after.open[i]).call_id != id
        }),
{
    let id = call.payload@.field_text("call_id"@)->0;
    lemma_kind_differs(call.event_type@, result.event_type@);
    lemma_open_index(st.open, id);
    let mid = read_event(st, call);
    lemma_open_index(mid.open, id);
    let i = open_index(st.open, id);
    if i < st.open.len() {
        assert(mid.open[i].call_id == id);
        let j = open_index(mid.open, id);
        if j < i {
            assert(mid.open[j] == st.open[j]);
        }
        if i < j {
            assert(mid.open[i].call_id != id);
        }
    } else {
        assert(mid.open[i].call_id == id);
        let j = open_index(mid.open, id);
        if j < i {
            assert(mid.open[j] == st.open[j]);
        }
    }
}

proof fn lemma_kind_differs(a: Seq<char>, b: Seq<char>)
    requires
        a == "tool_call"@,
        b == "tool_result"@,
    ensures
        a != "message_user"@,
        a != "message_assistant"@,
        b != "message_user"@,
        b != "message_assistant"@,
        b != "tool_call"@,
{
    reveal_strlit("tool_call");
    reveal_strlit("tool_result");
    reveal_strlit("message_user");
    reveal_strlit("message_assistant");
    assert("tool_call"@.len() == 9);
    assert("tool_result"@.len() == 11);
    assert("message_user"@.len() == 12);
    assert("message_assistant"@.len() == 17);
}

/// Events come by their number, and those with the same number by their time.
pub proof fn events_come_by_their_number(list: Seq<ThreadEvent>, i: int, j: int)
    requires
        0 <= i < j < list.len(),
    ensures
        events_in_order(list).len() == list.len(),
        events_in_order(list)[i].seq <= events_in_order(list)[j].seq,
        events_in_order(list)[i].seq == events_in_order(list)[j].seq ==> text_le(
            events_in_order(list)[i].ts@,
            events_in_order(list)[j].ts@,
        ),
{
    ordering_keeps_events(list);
    assert(event_le(events_in_order(list)[i], events_in_order(list)[j]));
}

/// Events that have come in order, those of the same number and time among them, stay as they are.
pub proof fn events_in_order_stay(list: Seq<ThreadEvent>)
    requires
        forall|i: int, j: int|
            0 <= i < j < list.len() ==> (#[trigger] list[i]).seq < (#[trigger] list[j]).seq || (
            list[i].seq == list[j].seq && (list[i].ts@ == list[j].ts@ || text_le(
                list[i].ts@,
                list[j].ts@,
            ))),
    ensures
        events_in_order(list) == list,
    decreases list.len(),
{
    if list.len() > 0 {
        let front = list.drop_last();
        assert forall|i: int, j: int| 0 <= i < j < front.len() implies (#[trigger] front[i]).seq < (
        #[trigger] front[j]).seq || (front[i].seq == front[j].seq && (front[i].ts@ == front[j].ts@
            || text_le(front[i].ts@, front[j].ts@))) by {
            assert(front[i] == list[i] && front[j] == list[j]);
        }
        events_in_order_stay(front);
        if front.len() > 0 {
            crate::text::lemma_text_le_total(list.last().ts@, list.last().ts@);
            assert(front.last() == list[list.len() - 2]);
            assert(event_le(front.last(), list.last()));
        }
        assert(event_place(front, list.last()) == front.len());
        assert(front.insert(front.len() as int, list.last()) =~= list);
    }
}

proof fn lemma_kinds_differ()
    ensures
        "message_user"@.len() == 12,
        "message_assistant"@.len() == 17,
        "message_assistant"@[0] == 'm',
        "tool_call"@.len() == 9,
        "tool_result"@.len() == 11,
        "thread_created"@.len() == 14,
        "thread_resurrected"@.len() == 18,
        "run_state_changed"@.len() == 17,
        "run_state_changed"@[0] == 'r',
        "subagent_report"@.len() == 15,
        "error"@.len() == 5,
{
    reveal_strlit("message_user");
    reveal_strlit("message_assistant");
    reveal_strlit("tool_call");
    reveal_strlit("tool_result");
    reveal_strlit("thread_created");
    reveal_strlit("thread_resurrected");
    reveal_strlit("run_state_changed");
    reveal_strlit("subagent_report");
    reveal_strlit("error");
}

/// Where all events are messages that say something, there is a card for each, in their order, with
/// what it says, and it is the user's or the assistant's as the event says.
pub proof fn messages_are_shown_as_who_spoke(events: Seq<ThreadEvent>)
    requires
        forall|i: int|
            0 <= i < events.len() ==> ((#[trigger] events[i]).event_type@ == "message_user"@
                || events[i].event_type@ == "message_assistant"@) && events[i].payload@.field_text(
                "content"@,
            ) is Some,
    ensures
        cards(ThreadKind::System, events).len() == events.len(),
        forall|i: int|
            #![trigger cards(ThreadKind::System, events)[i]]
            0 <= i < events.len() ==> (match cards(ThreadKind::System, events)[i] {
                ItemView::Text { role, text, .. } => Some(text) == events[i].payload@.field_text(
                    "content"@,
                ) && (role is User <==> events[i].event_type@ == "message_user"@) && (
                role is Assistant <==> events[i].event_type@ == "message_assistant"@),
                _ => false,
            }),
    decreases events.len(),
{
    lemma_messages(events);
    let st = read_events(events);
    assert(st.open.map_values(|call: OpenCallView| open_card(call)) =~= Seq::empty());
    assert(cards(ThreadKind::System, events) =~= st.items);
}

proof fn lemma_messages(events: Seq<ThreadEvent>)
    requires
        forall|i: int|
            0 <= i < events.len() ==> ((#[trigger] events[i]).event_type@ == "message_user"@
                || events[i].event_type@ == "message_assistant"@) && events[i].payload@.field_text(
                "content"@,
            ) is Some,
    ensures
        read_events(events).open.len() == 0,
        read_events(events).items.len() == events.len(),
        forall|i: int|
            #![trigger read_events(events).items[i]]
            0 <= i < events.len() ==> (match read_events(events).items[i] {
                ItemView::Text { role, text, .. } => Some(text) == events[i].payload@.field_text(
                    "content"@,
                ) && (role is User <==> events[i].event_type@ == "message_user"@) && (
                role is Assistant <==> events[i].event_type@ == "message_assistant"@),
                _ => false,
            }),
    decreases events.len(),
{
    lemma_kinds_differ();
    if events.len() > 0 {
        let front = events.drop_last();
        assert forall|i: int| 0 <= i < front.len() implies ((#[trigger] front[i]).event_type@
            == "message_user"@ || front[i].event_type@ == "message_assistant"@)
            && front[i].payload@.field_text("content"@) is Some by {
            assert(front[i] == events[i]);
        }
        lemma_messages(front);
        let st = read_events(front);
        assert forall|i: int|
            #![trigger read_events(events).items[i]]
            0 <= i < events.len() implies (match read_events(events).items[i] {
            ItemView::Text { role, text, .. } => Some(text) == events[i].payload@.field_text(
                "content"@,
            ) && (role is User <==> events[i].event_type@ == "message_user"@) && (
            role is Assistant <==> events[i].event_type@ == "message_assistant"@),
            _ => false,
        }) by {
            if i < front.len() {
                assert(read_events(events).items[i] == st.items[i]);
                assert(front[i] == events[i]);
            }
        }
    }
}

/// The card of a text is open unless the text has more than four lines or 280
/// characters.
pub proof fn short_texts_are_shown_whole(role: MessageRoleTag, text: Seq<char>)
    ensures
        message(role, text) matches ItemView::Text { role: r, text: t, expanded } && r == role && t
            == text && expanded == (crate::text::lines(text).len() <= 4 && text.len() <= 280),
{
}

/// What one more event adds to what is shown: a card for a message, a note or a result, nothing for
/// a call or an event of another kind. The cards before it stay as they are.
pub proof fn each_event_adds_its_card(events: Seq<ThreadEvent>, e: ThreadEvent)
    ensures
        ({
            let before = read_events(events);
            let after = read_events(events.push(e));
            let kind = e.event_type@;
            let p = e.payload@;
            let content = match p.field_text("content"@) {
                Some(s) => Some(s),
                None => p.text(),
            };
            &&& (kind == "message_user"@ || kind == "message_assistant"@) && content is Some
                ==> after.items.len() == before.items.len() + 1 && after.open == before.open && (
            after.items.last() matches ItemView::Text { role, text, .. } && Some(text) == content
                && (role is User <==> kind == "message_user"@) && (role is Assistant <==> kind
                == "message_assistant"@))
            &&& (kind == "message_user"@ || kind == "message_assistant"@) && content is None
                ==> after == before
            &&& after.saw_user == (before.saw_user || (kind == "message_user"@ && content is Some))
            &&& kind == "tool_call"@ ==> after.items == before.items
            &&& kind != "tool_call"@ && kind != "tool_result"@ ==> after.open == before.open
            &&& (kind == "tool_call"@ || kind == "tool_result"@) && p.field_text("call_id"@) is None
                ==> after == before
            &&& (kind == "thread_created"@ || kind == "thread_resurrected"@ || kind
                == "run_state_changed"@ || kind == "subagent_report"@ || kind == "error"@)
                ==> after.items.len() == before.items.len() + 1 && (
            after.items.last() matches ItemView::Text { role, .. } && role is System)
            &&& before.items.is_prefix_of(after.items)
            &&& kind != "message_user"@ && kind != "message_assistant"@ && kind != "tool_call"@
                && kind != "tool_result"@ && kind != "thread_created"@ && kind
                != "thread_resurrected"@ && kind != "run_state_changed"@ && kind
                != "subagent_report"@ && kind != "error"@ ==> after == before
        }),
{
    lemma_kinds_differ();
    assert(events.push(e).drop_last() =~= events);
}

/// What the notes of the system say, in terms of what their events say.
pub proof fn notes_say_what_happened(events: Seq<ThreadEvent>, e: ThreadEvent)
    ensures
        ({
            let kind = e.event_type@;
            let p = e.payload@;
            let after = read_events(events.push(e)).items;
            let text = after.last()->Text_text;
            &&& kind == "thread_created"@ && p.field_text("agent_id"@) is Some ==> text
                == "Thread created for sub-agent '"@ + p.field_text("agent_id"@)->0 + "'"@
            &&& kind == "thread_created"@ && p.field_text("agent_id"@) is None ==> text
                == "Thread created for sub-agent '"@ + "unknown"@ + "'"@
            &&& kind == "thread_resurrected"@ ==> text
                == "Thread resurrected and ready for continuation."@
            &&& kind == "error"@ && p.field_text("tool_id"@) is Some && p.field_text("call_id"@) is Some
                && p.field_text("error"@) is Some ==> text == "SYSTEM ERROR ["@ + p.field_text(
                "tool_id"@,
            )->0 + "::"@ + p.field_text("call_id"@)->0 + "] "@ + p.field_text("error"@)->0
            &&& kind == "error"@ && p.field_text("tool_id"@) is None && p.field_text("call_id"@) is None
                && p.field_text("error"@) is None ==> text == "SYSTEM ERROR ["@ + "runtime"@ + "::"@
                + "n/a"@ + "] "@ + "unknown error"@
            &&& kind == "run_state_changed"@ ==> {
                let state = match p.field_text("state"@) {
                    Some(s) => s,
                    None => "unknown"@,
                };
                let summary = match p.field_text("summary"@) {
                    Some(s) => s,
                    None => Seq::empty(),
                };
                let error = match p.field_text("error"@) {
                    Some(s) => s,
                    None => Seq::empty(),
                };
                let start = "Run state changed: "@ + state;
                &&& summary.len() == 0 && error.len() == 0 ==> text == start
                &&& summary.len() > 0 && error.len() == 0 ==> text == start + " | summary: "@
                    + summary
                &&& summary.len() == 0 && error.len() > 0 ==> text == start + " | error: "@ + error
                &&& summary.len() > 0 && error.len() > 0 ==> text == start + " | summary: "@
                    + summary + " | error: "@ + error
            }
            &&& kind == "subagent_report"@ && p.field("report"@) is Some && p.field_text(
                "report_type"@,
            ) is Some ==> {
                let report = p.field("report"@)->0;
                let start = "SUB-AGENT REPORT ["@ + p.field_text("report_type"@)->0 + "] "@;
                &&& report.field_text("description"@) matches Some(d) ==> text == start + d
                &&& report.field_text("description"@) is None && report.field_text(
                    "summary"@,
                ) is Some ==> text == start + report.field_text("summary"@)->0
                &&& report.field_text("description"@) is None && report.field_text(
                    "summary"@,
                ) is None ==> text == start + "report available"@
            }
        }),
{
    lemma_kinds_differ();
    assert(events.push(e).drop_last() =~= events);
}

/// An announced call stays open, as it was announced, until an event speaks of the same call.
pub proof fn calls_stay_open(st: Reading, e: ThreadEvent, i: int)
    requires
        0 <= i < st.open.len(),
        e.payload@.field_text("call_id"@) != Some(st.open[i].call_id) || (e.event_type@
            != "tool_call"@ && e.event_type@ != "tool_result"@),
    ensures
        read_event(st, e).open.contains(st.open[i]),
{
    let after = read_event(st, e).open;
    let p = e.payload@;
    match p.field_text("call_id"@) {
        Some(id) => {
            let k = open_index(st.open, id);
            lemma_open_index(st.open, id);
            if e.event_type@ == "tool_call"@ || e.event_type@ == "tool_result"@ {
                lemma_kinds_differ();
                if e.event_type@ == "tool_result"@ && k < i && k < st.open.len() {
                    assert(after[i - 1] == st.open[i]);
                } else {
                    assert(after[i] == st.open[i]);
                }
            } else {
                assert(after[i] == st.open[i]);
            }
        },
        None => {
            assert(after[i] == st.open[i]);
        },
    }
}

/// A call is announced with the tool and the arguments that its event names.
pub proof fn calls_are_announced(st: Reading, e: ThreadEvent)
    requires
        e.event_type@ == "tool_call"@,
        e.payload@.field_text("call_id"@) is Some,
    ensures
        ({
            let after = read_event(st, e).open;
            exists|i: int|
                0 <= i < after.len() && Some((#[trigger] after[i]).call_id)
                    == e.payload@.field_text("call_id"@) && (e.payload@.field_text(
                    "tool_id"@,
                ) matches Some(t) ==> after[i].tool_id == t) && (e.payload@.field(
                    "arguments"@,
                ) matches Some(a) ==> after[i].arguments == a)
        }),
{
    lemma_kinds_differ();
    let id = e.payload@.field_text("call_id"@)->0;
    let k = open_index(st.open, id);
    lemma_open_index(st.open, id);
    let after = read_event(st, e).open;
    assert(after[k] == announced(e.payload@, id));
}

/// The result of an open call, whatever came in between, is shown with the tool and the arguments of
/// the call and the state and the output of the result, and takes that call, and no other, from
/// those that are open.
pub proof fn results_meet_their_calls(st: Reading, e: ThreadEvent, i: int)
    requires
        e.event_type@ == "tool_result"@,
        0 <= i < st.open.len(),
        e.payload@.field_text("call_id"@) == Some(st.open[i].call_id),
        calls_distinct(st.open),
        st.open[i].tool_id != "delegate_to_agent"@,
    ensures
        read_event(st, e).open == st.open.remove(i),
        read_event(st, e).items.len() == st.items.len() + 1,
        read_event(st, e).items.last() matches ItemView::Tool(t) && t.call_id == st.open[i].call_id
            && t.tool_id == st.open[i].tool_id && t.arguments == st.open[i].arguments && (
        e.payload@.field_text("status"@) matches Some(s) ==> t.status == s) && (
        e.payload@.field_text("status"@) is None ==> t.status == "success"@) && (e.payload@.field(
            "output"@,
        ) matches Some(o) ==> t.output == o) && (e.payload@.field("output"@) is None
            ==> t.output is Null) && !t.expanded && (t.meta matches Some(m) && m.seq == Some(e.seq)
            && m.ts == Some(e.ts@) && m.redaction_applied == Some(e.redaction_applied)),
{
    lemma_kinds_differ();
    lemma_open_index(st.open, st.open[i].call_id);
    let k = open_index(st.open, st.open[i].call_id);
    if k < i {
        assert(st.open[k].call_id != st.open[i].call_id);
    }
}

/// The result of a call that is not open is shown by what it says itself, and closes nothing.
pub proof fn results_without_a_call_are_shown(st: Reading, e: ThreadEvent)
    requires
        e.event_type@ == "tool_result"@,
        e.payload@.field_text("call_id"@) is Some,
        forall|i: int|
            0 <= i < st.open.len() ==> Some((#[trigger] st.open[i]).call_id)
                != e.payload@.field_text("call_id"@),
        e.payload@.field_text("tool_id"@) matches Some(t) && t != "delegate_to_agent"@,
    ensures
        read_event(st, e).open == st.open,
        read_event(st, e).items.len() == st.items.len() + 1,
        read_event(st, e).items.last() matches ItemView::Tool(t) && Some(t.call_id)
            == e.payload@.field_text("call_id"@) && Some(t.tool_id) == e.payload@.field_text(
            "tool_id"@,
        ) && (e.payload@.field("arguments"@) matches Some(a) ==> t.arguments == a) && (
        e.payload@.field("output"@) matches Some(o) ==> t.output == o),
{
    lemma_kinds_differ();
    lemma_open_index(st.open, e.payload@.field_text("call_id"@)->0);
}

/// The card of work that was handed to another agent says who it went to, what was asked and what
/// came of it; that of any other tool has the call as it is.
pub proof fn calls_are_shown_as_made(
    call_id: Seq<char>,
    tool_id: Seq<char>,
    status: Seq<char>,
    arguments: JsonTree,
    output: JsonTree,
    meta: Option<MetaView>,
)
    ensures
        match call_card(call_id, tool_id, status, arguments, output, meta) {
            ItemView::Tool(t) => tool_id != "delegate_to_agent"@ && t.call_id == call_id && t.tool_id
                == tool_id && t.status == status && t.arguments == arguments && t.output == output
                && t.meta == meta,
            ItemView::Delegate(d) => tool_id == "delegate_to_agent"@ && d.call_id == call_id
                && d.status == status && d.arguments == arguments && d.output == output && d.meta
                == meta && (arguments.field_text("agent_id"@) is Some ==> d.target_agent
                == arguments.field_text("agent_id"@)) && (arguments.field_text("agent_id"@) is None
                ==> d.target_agent == output.field_text("agent_id"@)) && d.instruction
                == arguments.field_text("instruction"@) && d.summary == output.field_text(
                "summary"@,
            ) && d.thread_id == output.field_text("thread_id"@) && d.run_id == output.field_text(
                "run_id"@,
            ) && (output.field_text("error"@) is Some ==> d.error == output.field_text("error"@))
                && (output.field_text("error"@) is None && status != "error"@ ==> d.error is None)
                && (output.field_text("error"@) is None && status == "error"@ ==> d.error
                == Some(compact_text(output))),
            _ => false,
        },
{
}

/// Behind the cards of the events stand the calls that are still open, in their order, as pending.
pub proof fn open_calls_come_last(events: Seq<ThreadEvent>, i: int)
    requires
        0 <= i < read_events(events).open.len(),
        read_events(events).open[i].tool_id != "delegate_to_agent"@,
    ensures
        ({
            let st = read_events(events);
            let all = cards(ThreadKind::System, events);
            &&& all.len() == st.items.len() + st.open.len()
            &&& all.take(st.items.len() as int) == st.items
            &&& all[st.items.len() + i] matches ItemView::Tool(t) && t.call_id == st.open[i].call_id
                && t.tool_id == st.open[i].tool_id && t.arguments == st.open[i].arguments
                && t.status == "pending"@ && t.output is Null && t.meta is None
        }),
{
    let st = read_events(events);
    assert(cards(ThreadKind::System, events).take(st.items.len() as int) =~= st.items);
}

proof fn lemma_saw_user(events: Seq<ThreadEvent>)
    ensures
        read_events(events).saw_user <==> exists|i: int|
            0 <= i < events.len() && (#[trigger] events[i]).event_type@ == "message_user"@ && (
            events[i].payload@.field_text("content"@) is Some || events[i].payload@ is Text),
    decreases events.len(),
{
    lemma_kinds_differ();
    if events.len() > 0 {
        let front = events.drop_last();
        lemma_saw_user(front);
        if read_events(front).saw_user {
            let i = choose|i: int|
                0 <= i < front.len() && (#[trigger] front[i]).event_type@ == "message_user"@ && (
                front[i].payload@.field_text("content"@) is Some || front[i].payload@ is Text);
            assert(events[i] == front[i]);
        }
        if exists|i: int|
            0 <= i < events.len() && (#[trigger] events[i]).event_type@ == "message_user"@ && (
            events[i].payload@.field_text("content"@) is Some || events[i].payload@ is Text) {
            let i = choose|i: int|
                0 <= i < events.len() && (#[trigger] events[i]).event_type@ == "message_user"@ && (
                events[i].payload@.field_text("content"@) is Some || events[i].payload@ is Text);
            if i < front.len() {
                assert(front[i] == events[i]);
            }
        }
    }
}

/// A sub-agent's thread shows what any other does, but that it begins with a note where no user says
/// anything in it.
pub proof fn threads_of_agents_show_what_is_missing(events: Seq<ThreadEvent>)
    ensures
        ({
            let all = cards(ThreadKind::System, events);
            let shown = cards(ThreadKind::Subagent, events);
            if exists|i: int|
                0 <= i < events.len() && (#[trigger] events[i]).event_type@ == "message_user"@ && (
                events[i].payload@.field_text("content"@) is Some || events[i].payload@ is Text) {
                shown == all
            } else {
                shown.len() == all.len() + 1 && shown.skip(1) == all && (
                shown[0] matches ItemView::Text { role, text, .. } && role is System && text
                    == "Initial instruction unavailable (legacy run format)"@)
            }
        }),
{
    lemma_saw_user(events);
    let all = cards(ThreadKind::System, events);
    assert((seq![no_instruction()] + all).skip(1) =~= all);
}

} // verus!

//! A thread of the conversation, as the chat shows it.

use vstd::prelude::*;
use crate::chat::events::{item_views, ThreadKind};
use crate::chat::paint::{
    ink, line1, line_views, piece, put_line, put_lines, row, span, Color, Line, LineView, Style,
};
use crate::chat::preview::short_thread_id;
use crate::chat::timeline::{item_lines, text_or, ItemView, MessageRoleTag, TimelineItem};
use crate::rpc::ThreadSummary;
use crate::text::{ascii_lower, clipped, copy_opt, has, occurs, opt_view, same, to_ascii_lower};

verus! {

/// The thread of the orchestrator.
pub const SYSTEM_THREAD_ID: &'static str = "system0";

/// The background of the conversation.
#[verifier::allow_in_spec]
pub fn timeline_background() -> Color
    returns
        (Color::Rgb(16, 16, 22)),
{
    Color::Rgb(16, 16, 22)
}

/// Which cards of a conversation are shown.
#[derive(Debug, Clone, Copy, PartialEq, Eq, Structural)]
pub enum MainFilter {
    All,
    DelegatesOnly,
    FailuresOnly,
    SystemToolsOnly,
}

impl MainFilter {
    /// The name of a filter.
    pub open spec fn name(self) -> Seq<char> {
        match self {
            MainFilter::All => "all"@,
            MainFilter::DelegatesOnly => "delegates"@,
            MainFilter::FailuresOnly => "failures"@,
            MainFilter::SystemToolsOnly => "system-tools"@,
        }
    }

    /// The name of a filter.
    pub fn label(self) -> (r: &'static str)
        ensures
            r@ == self.name(),
    {
        match self {
            MainFilter::All => "all",
            MainFilter::DelegatesOnly => "delegates",
            MainFilter::FailuresOnly => "failures",
            MainFilter::SystemToolsOnly => "system-tools",
        }
    }
}

/// A thread: whose it is, how it stands, and its cards.
#[derive(Debug)]
pub struct ThreadView {
    pub id: String,
    pub title: String,
    pub kind: ThreadKind,
    pub agent_id: Option<String>,
    pub state: String,
    pub active: bool,
    pub resurrected: bool,
    pub read_only: bool,
    pub items: Vec<TimelineItem>,
}

/// What a thread holds.
pub struct ThreadModel {
    pub id: Seq<char>,
    pub title: Seq<char>,
    pub kind: ThreadKind,
    pub agent_id: Option<Seq<char>>,
    pub state: Seq<char>,
    pub active: bool,
    pub resurrected: bool,
    pub read_only: bool,
    pub items: Seq<ItemView>,
}

impl View for ThreadView {
    type V = ThreadModel;

    open spec fn view(&self) -> ThreadModel {
        ThreadModel {
            id: self.id@,
            title: self.title@,
            kind: self.kind,
            agent_id: opt_view(self.agent_id),
            state: self.state@,
            active: self.active,
            resurrected: self.resurrected,
            read_only: self.read_only,
            items: item_views(self.items@),
        }
    }
}

/// The threads of a list.
pub open spec fn thread_views(threads: Seq<ThreadView>) -> Seq<ThreadModel> {
    Seq::new(threads.len(), |i: int| threads[i]@)
}

/// The title of a sub-agent's thread.
pub open spec fn agent_title(agent_id: Option<Seq<char>>, thread_id: Seq<char>) -> Seq<char> {
    text_or(agent_id, "sub-agent"@) + " ("@ + clipped(thread_id, 8) + ")"@
}

/// The orchestrator's thread, with nothing in it.
pub open spec fn system_thread() -> ThreadModel {
    ThreadModel {
        id: SYSTEM_THREAD_ID@,
        title: "System0"@,
        kind: ThreadKind::System,
        agent_id: Some(SYSTEM_THREAD_ID@),
        state: "active"@,
        active: true,
        resurrected: false,
        read_only: false,
        items: Seq::empty(),
    }
}

/// Whose thread a summary speaks of.
pub open spec fn summary_kind(s: ThreadSummary) -> ThreadKind {
    if s.kind@ == "system"@ {
        ThreadKind::System
    } else {
        ThreadKind::Subagent
    }
}

/// A sub-agent's thread can only be read until it is active or has been brought back.
pub open spec fn locked(kind: ThreadKind, s: ThreadSummary) -> bool {
    kind is Subagent && !(s.active || s.resurrected)
}

/// A thread as a summary describes it, with nothing in it.
pub open spec fn summarized(s: ThreadSummary) -> ThreadModel {
    ThreadModel {
        id: s.thread_id@,
        title: if summary_kind(s) is System {
            "System0"@
        } else {
            agent_title(opt_view(s.agent_id), s.thread_id@)
        },
        kind: summary_kind(s),
        agent_id: opt_view(s.agent_id),
        state: s.state@,
        active: s.active,
        resurrected: s.resurrected,
        read_only: locked(summary_kind(s), s),
        items: Seq::empty(),
    }
}

/// A thread brought up to date with a summary. What it is and its cards stay.
pub open spec fn updated(t: ThreadModel, s: ThreadSummary) -> ThreadModel {
    ThreadModel {
        agent_id: opt_view(s.agent_id),
        state: s.state@,
        active: s.active,
        resurrected: s.resurrected,
        read_only: locked(t.kind, s),
        title: if t.kind is Subagent {
            agent_title(opt_view(s.agent_id), s.thread_id@)
        } else {
            t.title
        },
        ..t
    }
}

/// The name on the chip of the one who answers in a thread.
pub open spec fn badge_label(t: ThreadModel) -> Seq<char> {
    match t.kind {
        ThreadKind::System => "System0"@,
        ThreadKind::Subagent => text_or(t.agent_id, "Assistant"@),
    }
}

fn title_for(agent_id: &Option<String>, thread_id: &str) -> (r: String)
    ensures
        r@ == agent_title(opt_view(*agent_id), thread_id@),
{
    let mut title = match agent_id {
        Some(s) => s.clone(),
        None => "sub-agent".to_owned(),
    };
    title.append(" (");
    title.append(short_thread_id(thread_id).as_str());
    title.append(")");
    title
}

impl ThreadView {
    /// The orchestrator's thread, with nothing in it.
    pub fn system() -> (r: ThreadView)
        ensures
            r@ == system_thread(),
    {
        let r = ThreadView {
            id: SYSTEM_THREAD_ID.to_owned(),
            title: "System0".to_owned(),
            kind: ThreadKind::System,
            agent_id: Some(SYSTEM_THREAD_ID.to_owned()),
            state: "active".to_owned(),
            active: true,
            resurrected: false,
            read_only: false,
            items: Vec::new(),
        };
        assert(r@.items =~= Seq::empty());
        r
    }

    /// A thread as a summary describes it, with nothing in it.
    pub fn from_summary(summary: &ThreadSummary) -> (r: ThreadView)
        ensures
            r@ == summarized(*summary),
    {
        let is_system = same(summary.kind.as_str(), "system");
        let kind = if is_system {
            ThreadKind::System
        } else {
            ThreadKind::Subagent
        };
        let title = if is_system {
            "System0".to_owned()
        } else {
            title_for(&summary.agent_id, summary.thread_id.as_str())
        };
        let r = ThreadView {
            id: summary.thread_id.clone(),
            title,
            kind,
            agent_id: copy_opt(&summary.agent_id),
            state: summary.state.clone(),
            active: summary.active,
            resurrected: summary.resurrected,
            read_only: !is_system && !(summary.active || summary.resurrected),
            items: Vec::new(),
        };
        assert(r@.items =~= Seq::empty());
        r
    }

    /// The name on the chip of the one who answers in the thread.
    pub fn assistant_badge_label(&self) -> (r: String)
        ensures
            r@ == badge_label(self@),
    {
        match self.kind {
            ThreadKind::System => "System0".to_owned(),
            ThreadKind::Subagent => match &self.agent_id {
                Some(s) => s.clone(),
                None => "Assistant".to_owned(),
            },
        }
    }

    /// Brings the thread up to date with a summary.
    pub fn apply_summary(&mut self, summary: &ThreadSummary)
        ensures
            final(self)@ == updated(old(self)@, *summary),
    {
        self.agent_id = copy_opt(&summary.agent_id);
        self.state = summary.state.clone();
        self.active = summary.active;
        self.resurrected = summary.resurrected;
        let is_subagent = match self.kind {
            ThreadKind::Subagent => true,
            ThreadKind::System => false,
        };
        self.read_only = is_subagent && !(summary.active || summary.resurrected);
        if is_subagent {
            self.title = title_for(&summary.agent_id, summary.thread_id.as_str());
        }
    }
}

// ---- filters -----------------------------------------------------------------------------

/// A card passes a filter.
pub open spec fn passes(item: ItemView, filter: MainFilter) -> bool {
    match filter {
        MainFilter::All => true,
        MainFilter::DelegatesOnly => match item {
            ItemView::Delegate(_) => true,
            ItemView::Tool(t) => t.tool_id == "delegate_to_agent"@,
            ItemView::Text { .. } => false,
        },
        MainFilter::FailuresOnly => match item {
            ItemView::Tool(t) => t.status == "error"@ || t.status == "failed"@,
            ItemView::Delegate(d) => d.status == "error"@ || d.status == "failed"@
                || d.error is Some,
            ItemView::Text { role, text, .. } => role is System && occurs(
                ascii_lower(text),
                "error"@,
            ),
        },
        MainFilter::SystemToolsOnly => !(item is Text),
    }
}

/// Whether a card passes a filter.
pub fn item_matches_filter(item: &TimelineItem, filter: MainFilter) -> (r: bool)
    ensures
        r == passes(item@, filter),
{
    match filter {
        MainFilter::All => true,
        MainFilter::DelegatesOnly => match item {
            TimelineItem::DelegateInvocation { .. } => true,
            TimelineItem::ToolInvocation { tool_id, .. } => same(
                tool_id.as_str(),
                "delegate_to_agent",
            ),
            TimelineItem::Text { .. } => false,
        },
        MainFilter::FailuresOnly => match item {
            TimelineItem::ToolInvocation { status, .. } => same(status.as_str(), "error") || same(
                status.as_str(),
                "failed",
            ),
            TimelineItem::DelegateInvocation { status, error, .. } => same(
                status.as_str(),
                "error",
            ) || same(status.as_str(), "failed") || error.is_some(),
            TimelineItem::Text { role, text, .. } => {
                let from_system = match role {
                    MessageRoleTag::System => true,
                    _ => false,
                };
                from_system && has(to_ascii_lower(text.as_str()).as_str(), "error")
            },
        },
        MainFilter::SystemToolsOnly => match item {
            TimelineItem::Text { .. } => false,
            _ => true,
        },
    }
}

/// The positions of the cards that pass a filter.
pub open spec fn visible_in(items: Seq<ItemView>, filter: MainFilter) -> Seq<usize>
    decreases items.len(),
{
    if items.len() == 0 {
        seq![]
    } else {
        let front = visible_in(items.drop_last(), filter);
        if passes(items.last(), filter) {
            front.push((items.len() - 1) as usize)
        } else {
            front
        }
    }
}

/// The positions of the cards that pass a filter.
pub fn visible_items(items: &Vec<TimelineItem>, filter: MainFilter) -> (r: Vec<usize>)
    ensures
        r@ == visible_in(item_views(items@), filter),
        forall|k: int| 0 <= k < r@.len() ==> (#[trigger] r@[k]) < items@.len(),
{
    let ghost all = item_views(items@);
    let mut out: Vec<usize> = Vec::new();
    let mut i: usize = 0;
    assert(all.take(0) =~= Seq::empty());
    while i < items.len()
        invariant
            i <= items@.len(),
            all == item_views(items@),
            out@ == visible_in(all.take(i as int), filter),
            forall|k: int| 0 <= k < out@.len() ==> (#[trigger] out@[k]) < i,
        decreases items@.len() - i,
    {
        proof {
            assert(all.take(i + 1).drop_last() =~= all.take(i as int));
            assert(all.take(i + 1).last() == items@[i as int]@);
        }
        if item_matches_filter(&items[i], filter) {
            out.push(i);
        }
        i = i + 1;
    }
    assert(all.take(i as int) =~= all);
    out
}

/// The position of a number in a list, or the length of the list.
pub open spec fn place_of(list: Seq<usize>, n: int) -> int
    decreases list.len(),
{
    if list.len() == 0 || list[0] == n {
        0
    } else {
        1 + place_of(list.drop_first(), n)
    }
}

/// The position of the last number in a list that is below another, or the first position.
pub open spec fn last_below(list: Seq<usize>, n: int) -> int
    decreases list.len(),
{
    if list.len() <= 1 || list.last() < n {
        if list.len() == 0 {
            0
        } else {
            list.len() - 1
        }
    } else {
        last_below(list.drop_last(), n)
    }
}

/// Where the selection is among the cards shown: on the selected card, or else on the nearest one
/// above it, or else on the first.
pub open spec fn selected_place(visible: Seq<usize>, selected: int) -> int {
    let k = place_of(visible, selected);
    if k < visible.len() {
        k
    } else {
        last_below(visible, selected)
    }
}

/// Where the selection is among the cards shown.
pub fn selected_visible_position(visible: &Vec<usize>, selected: usize) -> (r: usize)
    ensures
        r == selected_place(visible@, selected as int),
        visible@.len() > 0 ==> r < visible@.len(),
{
    let ghost all = visible@;
    let mut i: usize = 0;
    assert(all.skip(0) =~= all);
    while i < visible.len()
        invariant
            i <= visible@.len(),
            all == visible@,
            place_of(all, selected as int) == i + place_of(all.skip(i as int), selected as int),
        decreases visible@.len() - i,
    {
        assert(all.skip(i as int).drop_first() =~= all.skip(i + 1));
        if visible[i] == selected {
            return i;
        }
        i = i + 1;
    }
    let mut n: usize = visible.len();
    assert(all.take(n as int) =~= all);
    while n > 1 && visible[n - 1] >= selected
        invariant
            n <= visible@.len(),
            visible@.len() > 0 ==> n > 0,
            all == visible@,
            last_below(all, selected as int) == last_below(all.take(n as int), selected as int),
        decreases n,
    {
        assert(all.take(n as int).drop_last() =~= all.take(n - 1));
        n = n - 1;
    }
    if n == 0 {
        0
    } else {
        n - 1
    }
}

// ---- drawing -----------------------------------------------------------------------------

/// The rows of some cards with a row between each two.
pub open spec fn stacked(
    t: ThreadModel,
    visible: Seq<usize>,
    n: nat,
    place: int,
    width: usize,
    focused: bool,
) -> Seq<LineView>
    decreases n,
{
    if n == 0 {
        seq![]
    } else {
        let before = stacked(t, visible, (n - 1) as nat, place, width, focused);
        let card = item_lines(
            t.items[visible[n - 1] as int],
            n - 1 == place,
            badge_label(t),
            Some(width),
            focused,
        );
        let gap = if n < visible.len() {
            seq![row(seq![piece(" "@, Style { fg: None, bg: Some(timeline_background()), bold: false })])]
        } else {
            seq![]
        };
        before + card + gap
    }
}

/// The first and the last row of a card.
pub open spec fn card_range(
    t: ThreadModel,
    visible: Seq<usize>,
    k: int,
    place: int,
    width: usize,
    focused: bool,
) -> (int, int) {
    let start = stacked(t, visible, k as nat, place, width, focused).len();
    let rows = item_lines(
        t.items[visible[k] as int],
        k == place,
        badge_label(t),
        Some(width),
        focused,
    ).len();
    (
        start as int,
        if start + rows == 0 {
            0
        } else {
            start + rows - 1
        },
    )
}

/// A single row in gray.
pub open spec fn notice(text: Seq<char>) -> Seq<LineView> {
    seq![row(seq![piece(text, ink(Color::DarkGray))])]
}

/// The drawing of a thread: its rows, where each card is in them, and which card is selected.
pub struct Drawing {
    pub rows: Seq<LineView>,
    pub ranges: Seq<(int, int)>,
    pub place: int,
}

/// How a thread is drawn.
pub open spec fn drawn(
    t: ThreadModel,
    selected: int,
    width: usize,
    filter: MainFilter,
    focused: bool,
) -> Drawing {
    let visible = visible_in(t.items, filter);
    let place = selected_place(visible, selected);
    if t.items.len() == 0 {
        Drawing { rows: notice("No messages yet"@), ranges: seq![], place: 0 }
    } else if visible.len() == 0 {
        Drawing { rows: notice("No messages for current filter"@), ranges: seq![], place: 0 }
    } else {
        Drawing {
            rows: stacked(t, visible, visible.len(), place, width, focused),
            ranges: Seq::new(
                visible.len(),
                |k: int| card_range(t, visible, k, place, width, focused),
            ),
            place,
        }
    }
}

/// Pairs of numbers.
pub open spec fn int_pairs(list: Seq<(usize, usize)>) -> Seq<(int, int)> {
    Seq::new(list.len(), |i: int| (list[i].0 as int, list[i].1 as int))
}

/// Draws a thread.
pub fn build_thread_lines(
    thread: &ThreadView,
    selected: usize,
    selected_fill_width: usize,
    filter: MainFilter,
    timeline_focused: bool,
) -> (r: (Vec<Line>, Vec<(usize, usize)>, usize))
    ensures
        ({
            let d = drawn(
                thread@,
                selected as int,
                selected_fill_width,
                filter,
                timeline_focused,
            );
            &&& line_views(r.0@) == d.rows
            &&& int_pairs(r.1@) == d.ranges
            &&& r.2 == d.place
        }),
{
    let mut lines: Vec<Line> = Vec::new();
    let mut ranges: Vec<(usize, usize)> = Vec::new();
    assert(line_views(lines@) =~= seq![]);
    assert(int_pairs(ranges@) =~= seq![]);
    if thread.items.len() == 0 {
        put_line(&mut lines, line1(span("No messages yet", ink(Color::DarkGray))));
        assert(line_views(lines@) =~= notice("No messages yet"@));
        return (lines, ranges, 0);
    }
    let visible = visible_items(&thread.items, filter);
    if visible.len() == 0 {
        put_line(&mut lines, line1(span("No messages for current filter", ink(Color::DarkGray))));
        assert(line_views(lines@) =~= notice("No messages for current filter"@));
        return (lines, ranges, 0);
    }
    let place = selected_visible_position(&visible, selected);
    let label = thread.assistant_badge_label();
    let ghost t = thread@;
    let ghost want = Seq::new(
        visible@.len(),
        |k: int|
            card_range(t, visible@, k, place as int, selected_fill_width, timeline_focused),
    );
    let mut i: usize = 0;
    assert(want.take(0) =~= seq![]);
    while i < visible.len()
        invariant
            i <= visible@.len(),
            t == thread@,
            label@ == badge_label(t),
            visible@ == visible_in(t.items, filter),
            forall|k: int| 0 <= k < visible@.len() ==> (#[trigger] visible@[k]) < thread.items@.len(),
            want == Seq::new(
                visible@.len(),
                |k: int|
                    card_range(t, visible@, k, place as int, selected_fill_width, timeline_focused),
            ),
            line_views(lines@) == stacked(
                t,
                visible@,
                i as nat,
                place as int,
                selected_fill_width,
                timeline_focused,
            ),
            int_pairs(ranges@) == want.take(i as int),
        decreases visible@.len() - i,
    {
        let start = lines.len();
        let ghost before = line_views(lines@);
        let ghost old_ranges = int_pairs(ranges@);
        let card = thread.items[visible[i]].lines(
            i == place,
            label.as_str(),
            Some(selected_fill_width),
            timeline_focused,
        );
        let ghost shown = line_views(card@);
        proof {
            assert(t.items[visible@[i as int] as int] == thread.items@[visible@[i as int] as int]@);
            assert(lines@.len() == before.len());
            assert(card@.len() == shown.len());
        }
        put_lines(&mut lines, card);
        assert(lines@.len() == line_views(lines@).len());
        let end: usize = if lines.len() == 0 {
            0
        } else {
            lines.len() - 1
        };
        ranges.push((start, end));
        proof {
            assert(int_pairs(ranges@) =~= old_ranges.push((start as int, end as int)));
            assert(want[i as int] == (start as int, end as int));
            assert(want.take(i + 1) =~= want.take(i as int).push(want[i as int]));
        }
        if i + 1 < visible.len() {
            put_line(
                &mut lines,
                line1(
                    span(" ", Style { fg: None, bg: Some(timeline_background()), bold: false }),
                ),
            );
        }
        assert(line_views(lines@) =~= stacked(
            t,
            visible@,
            (i + 1) as nat,
            place as int,
            selected_fill_width,
            timeline_focused,
        ));
        i = i + 1;
    }
    assert(want.take(i as int) =~= want);
    (lines, ranges, place)
}

// ---- laws --------------------------------------------------------------------------------

/// A thread that has been brought up to date keeps its identifier, its kind and its cards.
pub proof fn updating_keeps_the_conversation(t: ThreadModel, s: ThreadSummary)
    ensures
        updated(t, s).id == t.id,
        updated(t, s).kind == t.kind,
        updated(t, s).items == t.items,
{
}

/// Bringing a thread up to date twice with the same summary is the same as once.
pub proof fn updating_twice(t: ThreadModel, s: ThreadSummary)
    ensures
        updated(updated(t, s), s) == updated(t, s),
{
}

/// A sub-agent's thread can be written to exactly if it is active or has been brought back; the
/// orchestrator's always can.
pub proof fn who_may_write(t: ThreadModel, s: ThreadSummary)
    ensures
        updated(t, s).read_only <==> (t.kind is Subagent && !s.active && !s.resurrected),
        t.kind is System ==> !updated(t, s).read_only,
{
}

/// Every card is shown without a filter, and a filter shows exactly the cards that pass it.
pub proof fn filters_show_what_passes(items: Seq<ItemView>, filter: MainFilter, i: int)
    requires
        0 <= i < items.len() <= usize::MAX,
    ensures
        visible_in(items, filter).contains(i as usize) <==> passes(items[i], filter),
        visible_in(items, MainFilter::All).contains(i as usize),
{
    lemma_visible(items, filter, i);
    lemma_visible(items, MainFilter::All, i);
}

proof fn lemma_visible(items: Seq<ItemView>, filter: MainFilter, i: int)
    requires
        0 <= i < items.len() <= usize::MAX,
    ensures
        visible_in(items, filter).contains(i as usize) <==> passes(items[i], filter),
    decreases items.len(),
{
    let front = visible_in(items.drop_last(), filter);
    let all = visible_in(items, filter);
    lemma_visible_below(items.drop_last(), filter);
    if i < items.len() - 1 {
        lemma_visible(items.drop_last(), filter, i);
        if front.contains(i as usize) {
            let k = choose|k: int| 0 <= k < front.len() && front[k] == i as usize;
            assert(all[k] == i as usize);
        }
        if all.contains(i as usize) {
            let k = choose|k: int| 0 <= k < all.len() && all[k] == i as usize;
            assert(k < front.len());
            assert(front[k] == i as usize);
        }
    } else {
        if passes(items.last(), filter) {
            assert(all[all.len() - 1] == i as usize);
        } else if all.contains(i as usize) {
            let k = choose|k: int| 0 <= k < all.len() && all[k] == i as usize;
            assert(front[k] == i as usize);
        }
    }
}

proof fn lemma_visible_below(items: Seq<ItemView>, filter: MainFilter)
    requires
        items.len() <= usize::MAX,
    ensures
        forall|k: int| 0 <= k < visible_in(items, filter).len() ==> (#[trigger] visible_in(
            items,
            filter,
        )[k]) < items.len(),
    decreases items.len(),
{
    if items.len() > 0 {
        lemma_visible_below(items.drop_last(), filter);
        let front = visible_in(items.drop_last(), filter);
        let all = visible_in(items, filter);
        assert forall|k: int| 0 <= k < all.len() implies (#[trigger] all[k]) < items.len() by {
            if k < front.len() {
                assert(all[k] == front[k]);
            }
        }
    }
}

/// A thread that is listed for the first time is shown as it is listed. Only the orchestrator's is
/// of the system; an agent's may be written to while it is active or was brought back.
pub proof fn threads_are_shown_as_listed(s: ThreadSummary)
    ensures
        summarized(s).id == s.thread_id@,
        summarized(s).kind is System <==> s.kind@ == "system"@,
        summarized(s).agent_id == opt_view(s.agent_id),
        summarized(s).state == s.state@,
        summarized(s).active == s.active,
        summarized(s).resurrected == s.resurrected,
        summarized(s).read_only <==> (s.kind@ != "system"@ && !s.active && !s.resurrected),
        summarized(s).items.len() == 0,
        s.kind@ == "system"@ ==> summarized(s).title == "System0"@,
        s.kind@ != "system"@ && s.agent_id is Some && s.thread_id@.len() >= 8 ==> summarized(s).title
            == s.agent_id->0@ + " ("@ + s.thread_id@.take(8) + ")"@,
        s.kind@ != "system"@ && s.agent_id is None && s.thread_id@.len() >= 8 ==> summarized(s).title
            == "sub-agent"@ + " ("@ + s.thread_id@.take(8) + ")"@,
        s.kind@ != "system"@ && s.agent_id is Some && s.thread_id@.len() < 8 ==> summarized(s).title
            == s.agent_id->0@ + " ("@ + s.thread_id@ + ")"@,
{
    if s.thread_id@.len() == 8 {
        assert(s.thread_id@.take(8) =~= s.thread_id@);
    }
}

/// A thread that is listed again takes over what the list says of it, and what it is called if it is
/// an agent's.
pub proof fn threads_follow_the_list(t: ThreadModel, s: ThreadSummary)
    ensures
        updated(t, s).agent_id == opt_view(s.agent_id),
        updated(t, s).state == s.state@,
        updated(t, s).active == s.active,
        updated(t, s).resurrected == s.resurrected,
        t.kind is System ==> updated(t, s).title == t.title,
        t.kind is Subagent && s.agent_id is Some && s.thread_id@.len() >= 8 ==> updated(t, s).title
            == s.agent_id->0@ + " ("@ + s.thread_id@.take(8) + ")"@,
{
    if s.thread_id@.len() == 8 {
        assert(s.thread_id@.take(8) =~= s.thread_id@);
    }
}

/// The thread of the orchestrator before anything is known of it.
pub proof fn the_system_thread_is_open()
    ensures
        system_thread().id == "system0"@,
        system_thread().kind is System,
        system_thread().active,
        !system_thread().read_only,
        !system_thread().resurrected,
        system_thread().state == "active"@,
        system_thread().title == "System0"@,
        system_thread().items.len() == 0,
{
}

/// Who answers in a thread: the orchestrator in its own, and in another the agent.
pub proof fn answers_are_signed(t: ThreadModel)
    ensures
        t.kind is System ==> badge_label(t) == "System0"@,
        t.kind is Subagent && t.agent_id is Some ==> badge_label(t) == t.agent_id->0,
        t.kind is Subagent && t.agent_id is None ==> badge_label(t) == "Assistant"@,
{
}

/// Which cards each filter lets through.
pub proof fn filters_let_through_what_they_name(item: ItemView)
    ensures
        passes(item, MainFilter::All),
        passes(item, MainFilter::SystemToolsOnly) <==> item is Tool || item is Delegate,
        passes(item, MainFilter::DelegatesOnly) <==> item is Delegate || (item matches ItemView::Tool(
            t,
        ) && t.tool_id == "delegate_to_agent"@),
        item matches ItemView::Tool(t) ==> (passes(item, MainFilter::FailuresOnly) <==> t.status
            == "error"@ || t.status == "failed"@),
        item matches ItemView::Delegate(d) ==> (passes(item, MainFilter::FailuresOnly) <==> d.status
            == "error"@ || d.status == "failed"@ || d.error is Some),
        item matches ItemView::Text { role, text, .. } ==> (passes(item, MainFilter::FailuresOnly)
            <==> role is System && occurs(ascii_lower(text), "error"@)),
        MainFilter::All.name() == "all"@,
        MainFilter::DelegatesOnly.name() == "delegates"@,
        MainFilter::FailuresOnly.name() == "failures"@,
        MainFilter::SystemToolsOnly.name() == "system-tools"@,
{
}

/// Cards are shown in the order of the conversation, each once.
pub proof fn shown_cards_keep_their_order(items: Seq<ItemView>, filter: MainFilter, i: int, j: int)
    requires
        items.len() <= usize::MAX,
        0 <= i < j < visible_in(items, filter).len(),
    ensures
        visible_in(items, filter)[i] < visible_in(items, filter)[j] < items.len(),
    decreases items.len(),
{
    lemma_visible_below(items, filter);
    if items.len() > 0 {
        let front = items.drop_last();
        lemma_visible_below(front, filter);
        if j < visible_in(front, filter).len() {
            shown_cards_keep_their_order(front, filter, i, j);
        }
    }
}

/// The card that is selected is found among those that are shown; where it is hidden, the last one
/// before it is taken, or the first if there is none.
pub proof fn hidden_selections_fall_back(visible: Seq<usize>, selected: int, k: int)
    requires
        0 <= k < visible.len(),
        forall|i: int, j: int| 0 <= i < j < visible.len() ==> visible[i] < visible[j],
    ensures
        visible[k] == selected ==> selected_place(visible, selected) == k,
        visible[k] < selected && (k + 1 == visible.len() || visible[k + 1] > selected)
            ==> selected_place(visible, selected) == k,
        selected < visible[0] ==> selected_place(visible, selected) == 0,
{
    lemma_place_of(visible, selected);
    let p = place_of(visible, selected);
    lemma_last_below(visible, selected);
    let q = last_below(visible, selected);
    if visible[k] == selected {
        if p < k {
            assert(visible[p] < visible[k]);
        }
        if p > k {
            assert(visible[k] != selected);
        }
    }
    if visible[k] < selected && (k + 1 == visible.len() || visible[k + 1] > selected) {
        if p < visible.len() {
            if p < k {
                assert(visible[p] < visible[k]);
            } else if p > k {
                if p > k + 1 {
                    assert(visible[k + 1] < visible[p]);
                }
            }
            assert(false);
        }
        if q < k {
            assert(!(visible[k] < selected));
        }
        if q > k {
            if q > k + 1 {
                assert(visible[k + 1] < visible[q]);
            }
            assert(q == 0 || visible[q] < selected);
        }
    }
    if selected < visible[0] {
        if p < visible.len() && p > 0 {
            assert(visible[0] < visible[p]);
        }
        if q > 0 {
            assert(visible[0] < visible[q]);
        }
    }
}

proof fn lemma_place_of(list: Seq<usize>, n: int)
    ensures
        0 <= place_of(list, n) <= list.len(),
        place_of(list, n) < list.len() ==> list[place_of(list, n)] == n,
        forall|i: int| 0 <= i < place_of(list, n) ==> list[i] != n,
    decreases list.len(),
{
    if list.len() > 0 && list[0] != n {
        let rest = list.drop_first();
        lemma_place_of(rest, n);
        assert forall|i: int| 0 <= i < place_of(list, n) implies list[i] != n by {
            if i > 0 {
                assert(rest[i - 1] == list[i]);
            }
        }
    }
}

proof fn lemma_last_below(list: Seq<usize>, n: int)
    requires
        list.len() > 0,
    ensures
        0 <= last_below(list, n) < list.len(),
        last_below(list, n) > 0 ==> list[last_below(list, n)] < n,
        forall|i: int| last_below(list, n) < i < list.len() ==> list[i] >= n,
    decreases list.len(),
{
    if list.len() > 1 && !(list.last() < n) {
        let front = list.drop_last();
        lemma_last_below(front, n);
        assert forall|i: int| last_below(list, n) < i < list.len() implies list[i] >= n by {
            if i < list.len() - 1 {
                assert(front[i] == list[i]);
            }
        }
    }
}

/// Where there is nothing to show, the thread says so, and says whether the filter is why.
pub proof fn empty_threads_say_so(
    t: ThreadModel,
    selected: int,
    width: usize,
    filter: MainFilter,
    focused: bool,
)
    ensures
        ({
            let d = drawn(t, selected, width, filter, focused);
            &&& t.items.len() == 0 ==> d.rows == notice("No messages yet"@) && d.ranges.len() == 0
            &&& t.items.len() > 0 && visible_in(t.items, filter).len() == 0 ==> d.rows == notice(
                "No messages for current filter"@,
            ) && d.ranges.len() == 0
            &&& visible_in(t.items, filter).len() > 0 && t.items.len() > 0 ==> d.ranges.len()
                == visible_in(t.items, filter).len() && d.place == selected_place(
                visible_in(t.items, filter),
                selected,
            )
        }),
{
}

proof fn lemma_stacked_prefix(
    t: ThreadModel,
    visible: Seq<usize>,
    k: nat,
    n: nat,
    place: int,
    width: usize,
    focused: bool,
)
    requires
        k <= n,
    ensures
        stacked(t, visible, k, place, width, focused).is_prefix_of(
            stacked(t, visible, n, place, width, focused),
        ),
    decreases n - k,
{
    if k < n {
        lemma_stacked_prefix(t, visible, k + 1, n, place, width, focused);
        let a = stacked(t, visible, k, place, width, focused);
        let b = stacked(t, visible, k + 1, place, width, focused);
        let c = stacked(t, visible, n, place, width, focused);
        assert(a =~= b.take(a.len() as int));
        assert(b =~= c.take(b.len() as int));
        assert(a =~= c.take(a.len() as int));
    }
}

/// The rows of each card that is shown stand where its range says, and only the selected one is drawn
/// as such.
pub proof fn cards_stand_in_their_ranges(
    t: ThreadModel,
    selected: int,
    width: usize,
    filter: MainFilter,
    focused: bool,
    k: int,
)
    requires
        t.items.len() > 0,
        0 <= k < visible_in(t.items, filter).len(),
    ensures
        ({
            let d = drawn(t, selected, width, filter, focused);
            let card = item_lines(
                t.items[visible_in(t.items, filter)[k] as int],
                k == d.place,
                badge_label(t),
                Some(width),
                focused,
            );
            card.len() > 0 ==> 0 <= d.ranges[k].0 <= d.ranges[k].1 < d.rows.len() && d.rows.subrange(
                d.ranges[k].0,
                d.ranges[k].1 + 1,
            ) == card
        }),
{
    let visible = visible_in(t.items, filter);
    let place = selected_place(visible, selected);
    let d = drawn(t, selected, width, filter, focused);
    let a = stacked(t, visible, k as nat, place, width, focused);
    let b = stacked(t, visible, (k + 1) as nat, place, width, focused);
    lemma_stacked_prefix(t, visible, (k + 1) as nat, visible.len(), place, width, focused);
    let card = item_lines(
        t.items[visible[k] as int],
        k == place,
        badge_label(t),
        Some(width),
        focused,
    );
    if card.len() > 0 {
        let from = a.len() as int;
        let to = a.len() + card.len();
        assert(b.subrange(from, to as int) =~= card);
        assert(d.rows.subrange(from, to as int) =~= b.subrange(from, to as int)) by {
            assert(b =~= d.rows.take(b.len() as int));
        }
    }
}

} // verus!

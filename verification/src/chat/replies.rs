//! How the chat takes in what the daemon replies.

use vstd::prelude::*;
use crate::chat::app::{
    last_of, lemma_thread_index, thread_index, with_items, AppView, ChatApp,
};
use crate::chat::events::{
    cards, item_views, message, no_instruction, timeline_items_from_events, ThreadKind,
};
use crate::chat::preview::short_thread_id;
use crate::chat::thread::{
    summarized, thread_views, updated, ThreadModel, ThreadView, SYSTEM_THREAD_ID,
};
use crate::chat::timeline::{snapshot, ItemView, MessageRoleTag, TimelineItem};
use crate::json::{array, json_views, object, put_entry, text, Json, JsonTree};
use crate::rpc::{ThreadEvent, ThreadSummary};
use crate::text::{at_most, cat, clipped, opt_view, same, text_le};

verus! {

// ---- the list of threads -----------------------------------------------------------------

/// The place for a summary among summaries with the newest first: behind all that are as new.
pub open spec fn summary_place(list: Seq<ThreadSummary>, s: ThreadSummary) -> int
    decreases list.len(),
{
    if list.len() == 0 || text_le(s.updated_at@, list.last().updated_at@) {
        list.len() as int
    } else {
        summary_place(list.drop_last(), s)
    }
}

/// Summaries with the newest first. Those as new as each other stay as they came.
pub open spec fn newest_first(list: Seq<ThreadSummary>) -> Seq<ThreadSummary>
    decreases list.len(),
{
    if list.len() == 0 {
        list
    } else {
        let front = newest_first(list.drop_last());
        front.insert(summary_place(front, list.last()), list.last())
    }
}

proof fn lemma_summary_place(list: Seq<ThreadSummary>, s: ThreadSummary)
    ensures
        0 <= summary_place(list, s) <= list.len(),
        summary_place(list, s) > 0 ==> text_le(
            s.updated_at@,
            list[summary_place(list, s) - 1].updated_at@,
        ),
        forall|j: int|
            summary_place(list, s) <= j < list.len() ==> !text_le(
                s.updated_at@,
                (#[trigger] list[j]).updated_at@,
            ),
    decreases list.len(),
{
    if list.len() > 0 && !text_le(s.updated_at@, list.last().updated_at@) {
        lemma_summary_place(list.drop_last(), s);
        assert forall|j: int| summary_place(list, s) <= j < list.len() implies !text_le(
            s.updated_at@,
            (#[trigger] list[j]).updated_at@,
        ) by {
            if j < list.len() - 1 {
                assert(list.drop_last()[j] == list[j]);
            }
        }
    }
}

fn sort_summaries(list: Vec<ThreadSummary>) -> (r: Vec<ThreadSummary>)
    ensures
        r@ == newest_first(list@),
{
    let ghost all = list@;
    let mut rest = list;
    let mut out: Vec<ThreadSummary> = Vec::new();
    proof {
        assert(all.take(0) =~= Seq::<ThreadSummary>::empty());
        assert(all.skip(0) =~= all);
        assert(newest_first(all.take(0)) =~= Seq::<ThreadSummary>::empty());
    }
    while rest.len() > 0
        invariant
            rest@.len() <= all.len(),
            rest@ == all.skip(all.len() - rest@.len()),
            out@ == newest_first(all.take(all.len() - rest@.len())),
        decreases rest@.len(),
    {
        let ghost k = all.len() - rest@.len();
        let s = rest.remove(0);
        proof {
            assert(all[k] == s);
            assert(rest@ =~= all.skip(k + 1));
            assert(all.take(k + 1).drop_last() =~= all.take(k));
        }
        let mut at: usize = out.len();
        while at > 0 && !at_most(s.updated_at.as_str(), out[at - 1].updated_at.as_str())
            invariant
                at <= out@.len(),
                forall|j: int|
                    at <= j < out@.len() ==> !text_le(
                        s.updated_at@,
                        (#[trigger] out@[j]).updated_at@,
                    ),
            decreases at,
        {
            at = at - 1;
        }
        proof {
            lemma_summary_place(out@, s);
            let p = summary_place(out@, s);
            if p < at {
                assert(!text_le(s.updated_at@, out@[at - 1].updated_at@));
            }
            if at < p {
                assert(!text_le(s.updated_at@, out@[p - 1].updated_at@));
            }
        }
        out.insert(at, s);
    }
    assert(all.take(all.len() as int) =~= all);
    out
}

/// A summary speaks of the orchestrator's thread.
pub open spec fn of_system(s: ThreadSummary) -> bool {
    s.thread_id@ == SYSTEM_THREAD_ID@ || s.kind@ == "system"@
}

fn is_of_system(s: &ThreadSummary) -> (r: bool)
    ensures
        r == of_system(*s),
{
    same(s.thread_id.as_str(), SYSTEM_THREAD_ID) || same(s.kind.as_str(), "system")
}

/// The summary of the orchestrator's thread where the daemon gives none.
pub open spec fn default_summary(s: ThreadSummary) -> bool {
    &&& s.thread_id@ == SYSTEM_THREAD_ID@
    &&& s.kind@ == "system"@
    &&& opt_view(s.agent_id) == Some(SYSTEM_THREAD_ID@)
    &&& s.latest_run_id is None
    &&& s.state@ == "active"@
    &&& s.updated_at@ == Seq::<char>::empty()
    &&& !s.resurrected
    &&& s.active
}

fn make_default_summary() -> (r: ThreadSummary)
    ensures
        default_summary(r),
{
    ThreadSummary {
        thread_id: SYSTEM_THREAD_ID.to_owned(),
        kind: "system".to_owned(),
        agent_id: Some(SYSTEM_THREAD_ID.to_owned()),
        latest_run_id: None,
        state: "active".to_owned(),
        updated_at: String::new(),
        resurrected: false,
        active: true,
    }
}

/// The last summary in a list that speaks of the orchestrator's thread.
pub open spec fn system_summary(list: Seq<ThreadSummary>) -> Option<ThreadSummary>
    decreases list.len(),
{
    if list.len() == 0 {
        None
    } else if of_system(list.last()) {
        Some(list.last())
    } else {
        system_summary(list.drop_last())
    }
}

/// The summaries in a list that speak of other threads.
pub open spec fn agent_summaries(list: Seq<ThreadSummary>) -> Seq<ThreadSummary> {
    list.filter(|s: ThreadSummary| !of_system(s))
}

/// The last thread in a list with the given identifier.
pub open spec fn last_with(pool: Seq<ThreadModel>, id: Seq<char>) -> Option<ThreadModel>
    decreases pool.len(),
{
    if pool.len() == 0 {
        None
    } else if pool.last().id == id {
        Some(pool.last())
    } else {
        last_with(pool.drop_last(), id)
    }
}

/// The threads in a list with other identifiers.
pub open spec fn without(pool: Seq<ThreadModel>, id: Seq<char>) -> Seq<ThreadModel>
    decreases pool.len(),
{
    if pool.len() == 0 {
        pool
    } else if pool.last().id == id {
        without(pool.drop_last(), id)
    } else {
        without(pool.drop_last(), id).push(pool.last())
    }
}

/// The thread that a summary speaks of: the one that is there, or a new one, brought up to date.
pub open spec fn revived(pool: Seq<ThreadModel>, id: Seq<char>, s: ThreadSummary) -> ThreadModel {
    updated(
        match last_with(pool, id) {
            Some(t) => t,
            None => summarized(s),
        },
        s,
    )
}

/// What stands in a thread that can only be read and has not been loaded.
pub open spec fn saved_note() -> ItemView {
    message(
        MessageRoleTag::System,
        "Saved sub-agent thread. Press Enter to resurrect and continue."@,
    )
}

/// A sub-agent's thread with the note in it, if it can only be read and holds nothing.
pub open spec fn noted_if_saved(t: ThreadModel) -> ThreadModel {
    if t.items.len() == 0 && t.read_only {
        with_items(t, seq![saved_note()])
    } else {
        t
    }
}

/// The threads that some summaries speak of, and the threads that none has spoken of.
pub open spec fn revive_all(pool: Seq<ThreadModel>, list: Seq<ThreadSummary>) -> (
    Seq<ThreadModel>,
    Seq<ThreadModel>,
)
    decreases list.len(),
{
    if list.len() == 0 {
        (seq![], pool)
    } else {
        let (done, left) = revive_all(pool, list.drop_last());
        let s = list.last();
        (
            done.push(noted_if_saved(revived(left, s.thread_id@, s))),
            without(left, s.thread_id@),
        )
    }
}

/// The list of threads once summaries came in: the orchestrator's thread, then the others, the
/// newest first. The thread on screen and the one selected in the list stay, if they are still
/// there.
pub open spec fn synced(st: AppView, summaries: Seq<ThreadSummary>, system: ThreadSummary) -> AppView {
    let others = agent_summaries(newest_first(summaries));
    let threads = seq![revived(st.threads, SYSTEM_THREAD_ID@, system)] + revive_all(
        without(st.threads, SYSTEM_THREAD_ID@),
        others,
    ).0;
    let on_screen = thread_index(threads, st.current().id);
    let active = if on_screen < threads.len() {
        on_screen
    } else {
        0
    };
    let listed = thread_index(
        threads,
        if st.sidebar_selected < st.threads.len() {
            st.threads[st.sidebar_selected as int].id
        } else {
            SYSTEM_THREAD_ID@
        },
    );
    AppView {
        threads,
        active_thread: active as usize,
        sidebar_selected: (if listed < threads.len() {
            listed
        } else {
            active
        }) as usize,
        ..st
    }
}

/// The summary that speaks of the orchestrator's thread, or one for want of it.
pub open spec fn speaks_for_system(summaries: Seq<ThreadSummary>, system: ThreadSummary) -> bool {
    match system_summary(newest_first(summaries)) {
        Some(s) => system == s,
        None => default_summary(system),
    }
}

fn take_thread(pool: &mut Vec<ThreadView>, id: &str) -> (r: Option<ThreadView>)
    ensures
        thread_views(final(pool)@) == without(thread_views(old(pool)@), id@),
        match r {
            Some(t) => last_with(thread_views(old(pool)@), id@) == Some(t@),
            None => last_with(thread_views(old(pool)@), id@) is None,
        },
{
    let ghost all = thread_views(pool@);
    let ghost mut kept: Seq<ThreadModel> = Seq::empty();
    let mut found: Option<ThreadView> = None;
    let mut i: usize = pool.len();
    proof {
        assert(all.take(i as int) =~= all);
        assert(all.take(i as int) + kept =~= all);
        assert(without(all, id@) + kept =~= without(all, id@));
    }
    while i > 0
        invariant
            i <= pool@.len(),
            i <= all.len(),
            thread_views(pool@) == all.take(i as int) + kept,
            without(all.take(i as int), id@) + kept == without(all, id@),
            match found {
                Some(t) => last_with(all, id@) == Some(t@),
                None => last_with(all, id@) == last_with(all.take(i as int), id@),
            },
        decreases i,
    {
        i = i - 1;
        let ghost before = thread_views(pool@);
        proof {
            assert(before[i as int] == pool@[i as int]@);
            assert(all.take(i + 1).drop_last() =~= all.take(i as int));
            assert(all.take(i + 1).last() == all[i as int]);
            assert(before[i as int] == all[i as int]);
        }
        if same(pool[i].id.as_str(), id) {
            let t = pool.remove(i);
            proof {
                assert(thread_views(pool@) =~= before.remove(i as int));
                assert(thread_views(pool@) =~= all.take(i as int) + kept);
            }
            if found.is_none() {
                found = Some(t);
            }
        } else {
            proof {
                let ghost more = seq![all[i as int]] + kept;
                assert(all.take(i + 1) + kept =~= all.take(i as int) + more);
                assert(without(all.take(i as int), id@).push(all[i as int]) + kept =~= without(
                    all.take(i as int),
                    id@,
                ) + more);
                kept = more;
            }
        }
    }
    proof {
        assert(all.take(0) + kept =~= kept);
        assert(without(all.take(0), id@) + kept =~= kept);
    }
    found
}

fn find_by_id(threads: &Vec<ThreadView>, id: &str) -> (r: usize)
    ensures
        r == thread_index(thread_views(threads@), id@),
        r <= threads@.len(),
{
    let ghost all = thread_views(threads@);
    let mut i: usize = 0;
    assert(all.skip(0) =~= all);
    while i < threads.len()
        invariant
            i <= threads@.len(),
            all == thread_views(threads@),
            thread_index(all, id@) == i + thread_index(all.skip(i as int), id@),
        decreases threads@.len() - i,
    {
        proof {
            assert(all.skip(i as int)[0] == threads@[i as int]@);
            assert(all.skip(i as int).drop_first() =~= all.skip(i + 1));
        }
        if same(threads[i].id.as_str(), id) {
            return i;
        }
        i = i + 1;
    }
    i
}

fn revive(pool: &mut Vec<ThreadView>, id: &str, s: &ThreadSummary) -> (r: ThreadView)
    ensures
        thread_views(final(pool)@) == without(thread_views(old(pool)@), id@),
        r@ == revived(thread_views(old(pool)@), id@, *s),
{
    let mut t = match take_thread(pool, id) {
        Some(t) => t,
        None => ThreadView::from_summary(s),
    };
    t.apply_summary(s);
    t
}

impl ChatApp {
    /// Brings the list of threads up to date.
    pub fn sync_thread_summaries(&mut self, summaries: Vec<ThreadSummary>)
        requires
            old(self).wf(),
        ensures
            final(self).wf(),
            exists|system: ThreadSummary|
                speaks_for_system(summaries@, system) && final(self)@ == #[trigger] synced(
                    old(self)@,
                    summaries@,
                    system,
                ),
    {
        let ghost st = self@;
        let active_id = self.current_thread().id.clone();
        let sidebar_id = if self.sidebar_selected < self.threads.len() {
            self.threads[self.sidebar_selected].id.clone()
        } else {
            SYSTEM_THREAD_ID.to_owned()
        };
        let mut pool: Vec<ThreadView> = Vec::new();
        std::mem::swap(&mut pool, &mut self.threads);
        let sorted = sort_summaries(summaries);
        let ghost list = newest_first(summaries@);
        let ghost pred = |s: ThreadSummary| !of_system(s);
        let mut rest = sorted;
        let mut system: Option<ThreadSummary> = None;
        let mut others: Vec<ThreadSummary> = Vec::new();
        proof {
            assert(list.take(0) =~= Seq::<ThreadSummary>::empty());
            assert(list.skip(0) =~= list);
            assert(list.take(0).filter(pred) =~= Seq::<ThreadSummary>::empty());
        }
        while rest.len() > 0
            invariant
                rest@.len() <= list.len(),
                rest@ == list.skip(list.len() - rest@.len()),
                pred == (|s: ThreadSummary| !of_system(s)),
                others@ == list.take(list.len() - rest@.len()).filter(pred),
                system == system_summary(list.take(list.len() - rest@.len())),
            decreases rest@.len(),
        {
            let ghost k = list.len() - rest@.len();
            let s = rest.remove(0);
            proof {
                assert(list[k] == s);
                assert(rest@ =~= list.skip(k + 1));
                assert(list.take(k + 1) =~= list.take(k).push(s));
                assert(list.take(k + 1).drop_last() =~= list.take(k));
                list.take(k).lemma_filter_push(s, pred);
            }
            if is_of_system(&s) {
                system = Some(s);
            } else {
                others.push(s);
            }
        }
        assert(list.take(list.len() as int) =~= list);
        let system_one = match system {
            Some(s) => s,
            None => make_default_summary(),
        };
        let mut threads: Vec<ThreadView> = Vec::new();
        let first = revive(&mut pool, SYSTEM_THREAD_ID, &system_one);
        threads.push(first);
        let ghost pool0 = without(st.threads, SYSTEM_THREAD_ID@);
        let ghost head = seq![revived(st.threads, SYSTEM_THREAD_ID@, system_one)];
        let ghost all = others@;
        let mut i: usize = 0;
        proof {
            assert(all.take(0) =~= Seq::<ThreadSummary>::empty());
            assert(thread_views(threads@) =~= head + revive_all(pool0, all.take(0)).0);
        }
        while i < others.len()
            invariant
                i <= others@.len(),
                all == others@,
                thread_views(threads@) == head + revive_all(pool0, all.take(i as int)).0,
                thread_views(pool@) == revive_all(pool0, all.take(i as int)).1,
            decreases others@.len() - i,
        {
            proof {
                assert(all.take(i + 1).drop_last() =~= all.take(i as int));
                assert(all.take(i + 1).last() == others@[i as int]);
            }
            let ghost left = thread_views(pool@);
            let ghost before = thread_views(threads@);
            let mut t = revive(&mut pool, others[i].thread_id.as_str(), &others[i]);
            let ghost plain = t@;
            assert(t@.items.len() == t.items@.len());
            if t.items.len() == 0 && t.read_only {
                t.items.push(
                    TimelineItem::text(
                        MessageRoleTag::System,
                        "Saved sub-agent thread. Press Enter to resurrect and continue.".to_owned(),
                    ),
                );
                assert(t@.items =~= seq![saved_note()]);
            }
            assert(t@ == noted_if_saved(plain));
            threads.push(t);
            proof {
                assert(thread_views(threads@) =~= before.push(t@));
                assert(thread_views(threads@) =~= head + revive_all(pool0, all.take(i + 1)).0);
            }
            i = i + 1;
        }
        assert(all.take(i as int) =~= all);
        let ghost now = thread_views(threads@);
        assert(now.len() == threads@.len());
        assert(now[0] == head[0]);
        let on_screen = find_by_id(&threads, active_id.as_str());
        let active: usize = if on_screen < threads.len() {
            on_screen
        } else {
            0
        };
        let listed = find_by_id(&threads, sidebar_id.as_str());
        let sidebar: usize = if listed < threads.len() {
            listed
        } else {
            active
        };
        self.threads = threads;
        self.active_thread = active;
        self.sidebar_selected = sidebar;
        proof {
            assert(speaks_for_system(summaries@, system_one));
            assert(self@ == synced(st, summaries@, system_one));
        }
    }

    /// Brings the list of threads up to date with what the daemon lists. The orchestrator's thread
    /// is there even where the daemon does not list it.
    pub fn accept_thread_summaries(&mut self, listed: Vec<ThreadSummary>)
        requires
            old(self).wf(),
        ensures
            final(self).wf(),
            exists|summaries: Seq<ThreadSummary>, system: ThreadSummary|
                completed(listed@, summaries) && speaks_for_system(summaries, system)
                    && final(self)@ == #[trigger] synced(old(self)@, summaries, system),
    {
        let mut summaries = listed;
        let mut there = false;
        let mut i: usize = 0;
        while i < summaries.len() && !there
            invariant
                i <= summaries@.len(),
                summaries@ == listed@,
                there ==> lists_system(summaries@),
                !there ==> forall|k: int|
                    0 <= k < i ==> (#[trigger] summaries@[k]).thread_id@ != SYSTEM_THREAD_ID@,
            decreases summaries@.len() - i,
        {
            if same(summaries[i].thread_id.as_str(), SYSTEM_THREAD_ID) {
                there = true;
            }
            i = i + 1;
        }
        if !there {
            assert(!lists_system(listed@));
            summaries.push(make_default_summary());
            assert(summaries@.drop_last() =~= listed@);
        }
        let ghost full = summaries@;
        assert(completed(listed@, full));
        self.sync_thread_summaries(summaries);
    }
}

/// One of some summaries has the identifier of the orchestrator's thread.
pub open spec fn lists_system(list: Seq<ThreadSummary>) -> bool {
    exists|k: int| 0 <= k < list.len() && (#[trigger] list[k]).thread_id@ == SYSTEM_THREAD_ID@
}

/// Some summaries, with one more for the orchestrator's thread if there is none among them.
pub open spec fn completed(listed: Seq<ThreadSummary>, full: Seq<ThreadSummary>) -> bool {
    if lists_system(listed) {
        full == listed
    } else {
        full.len() == listed.len() + 1 && full.drop_last() == listed && default_summary(full.last())
    }
}

// ---- the cards of a thread ---------------------------------------------------------------

/// One of some cards is a message of the user.
pub open spec fn user_speaks(items: Seq<ItemView>) -> bool {
    exists|k: int|
        0 <= k < items.len() && (#[trigger] items[k]) is Text && items[k]->role is User
}

/// The cards of a thread as they are loaded. A sub-agent's thread in which no user speaks says so
/// once more.
pub open spec fn loaded_cards(kind: ThreadKind, events: Seq<ThreadEvent>) -> Seq<ItemView> {
    let items = cards(kind, events);
    if kind is Subagent && !user_speaks(items) {
        seq![no_instruction()] + items
    } else {
        items
    }
}

impl AppView {
    /// Whose thread an identifier stands for.
    pub open spec fn kind_of(self, id: Seq<char>) -> ThreadKind {
        let i = thread_index(self.threads, id);
        if i < self.threads.len() {
            self.threads[i].kind
        } else if id == SYSTEM_THREAD_ID@ {
            ThreadKind::System
        } else {
            ThreadKind::Subagent
        }
    }

    /// The state in which no answer is awaited in a thread.
    pub open spec fn settled(self, id: Seq<char>) -> AppView {
        AppView { pending_thread: None, placeholders: self.placeholders.remove(id), ..self }
    }

    /// The state with the cards of a thread loaded from its events. The selection stays, as far as
    /// there are cards; a thread seen for the first time has its last card selected.
    pub open spec fn loaded(self, id: Seq<char>, events: Seq<ThreadEvent>) -> AppView {
        let i = thread_index(self.threads, id);
        let items = loaded_cards(self.kind_of(id), events);
        let last = last_of(items.len());
        let st = if i < self.threads.len() {
            AppView {
                threads: self.threads.update(i, with_items(self.threads[i], items)),
                selected: self.selected.insert(
                    id,
                    if self.selected.dom().contains(id) && self.selected[id] < last {
                        self.selected[id]
                    } else {
                        last as usize
                    },
                ),
                ..self
            }
        } else {
            self
        };
        st.settled(id)
    }

    /// The state once a request has failed: the note that the answer is awaited gives way to the
    /// error.
    pub open spec fn failed(self, text: Seq<char>) -> AppView {
        let st = match self.pending_thread {
            Some(id) => {
                let i = thread_index(self.threads, id);
                let free = AppView { pending_thread: None, ..self };
                if i < self.threads.len() {
                    let t = self.threads[i];
                    let kept = if self.placeholders.dom().contains(id) && self.placeholders[id]
                        < t.items.len() {
                        t.items.remove(self.placeholders[id] as int)
                    } else {
                        t.items
                    };
                    let items = kept.push(
                        message(MessageRoleTag::System, "SYSTEM ERROR: "@ + text),
                    );
                    AppView {
                        threads: self.threads.update(i, with_items(t, items)),
                        placeholders: self.placeholders.remove(id),
                        selected: self.selected.insert(id, (items.len() - 1) as usize),
                        ..free
                    }
                } else {
                    free
                }
            },
            None => self,
        };
        st.say(text)
    }
}

impl ChatApp {
    /// Forgets that an answer is awaited in a thread.
    pub fn clear_pending_marker(&mut self, thread_id: &str)
        requires
            old(self).wf(),
        ensures
            final(self).wf(),
            final(self)@ == old(self)@.settled(thread_id@),
    {
        self.pending_thread_id = None;
        let _ = self.pending_placeholder_index_by_thread.remove(thread_id);
    }

    /// Loads the cards of a thread from its events.
    pub fn load_thread(&mut self, thread_id: &str, events: &Vec<ThreadEvent>)
        requires
            old(self).wf(),
        ensures
            final(self).wf(),
            final(self)@ == old(self)@.loaded(thread_id@, events@),
    {
        let ghost st = self@;
        let i = find_by_id(&self.threads, thread_id);
        let kind = if i < self.threads.len() {
            assert(st.threads[i as int] == self.threads@[i as int]@);
            self.threads[i].kind
        } else if same(thread_id, SYSTEM_THREAD_ID) {
            ThreadKind::System
        } else {
            ThreadKind::Subagent
        };
        let mut items = timeline_items_from_events(&kind, events);
        let ghost plain = item_views(items@);
        let mut user = false;
        let mut k: usize = 0;
        while k < items.len()
            invariant
                k <= items@.len(),
                plain == item_views(items@),
                user ==> user_speaks(plain),
                !user ==> forall|j: int|
                    0 <= j < k ==> !((#[trigger] plain[j]) is Text && plain[j]->role is User),
            decreases items@.len() - k,
        {
            assert(plain[k as int] == items@[k as int]@);
            match &items[k] {
                TimelineItem::Text { role: MessageRoleTag::User, .. } => {
                    assert(plain[k as int] is Text && plain[k as int]->role is User);
                    user = true;
                },
                _ => {},
            }
            k = k + 1;
        }
        if kind == ThreadKind::Subagent && !user {
            assert(!user_speaks(plain));
            items.insert(
                0,
                TimelineItem::text(
                    MessageRoleTag::System,
                    "Initial instruction unavailable (legacy run format)".to_owned(),
                ),
            );
            assert(item_views(items@) =~= seq![no_instruction()] + plain);
        }
        let ghost want = loaded_cards(kind, events@);
        assert(item_views(items@) == want);
        if i < self.threads.len() {
            let len = items.len();
            assert(len == want.len());
            let last: usize = if len == 0 {
                0
            } else {
                len - 1
            };
            let selected = match self.selected_item_by_thread.get(thread_id) {
                Some(n) => if *n < last {
                    *n
                } else {
                    last
                },
                None => last,
            };
            self.threads[i].items = items;
            self.selected_item_by_thread.insert(thread_id.to_owned(), selected);
            assert(self@.threads =~= st.threads.update(
                i as int,
                with_items(st.threads[i as int], want),
            ));
        }
        self.clear_pending_marker(thread_id);
    }

    /// Shows that a request has failed.
    pub fn mark_pending_failed(&mut self, text: String)
        requires
            old(self).wf(),
        ensures
            final(self).wf(),
            final(self)@ == old(self)@.failed(text@),
    {
        let ghost st = self@;
        let pending = self.pending_thread_id.take();
        match pending {
            Some(id) => {
                let i = find_by_id(&self.threads, id.as_str());
                if i < self.threads.len() {
                    assert(st.threads[i as int] == self.threads@[i as int]@);
                    let ghost items = self.threads@[i as int].items@;
                    let ghost old_items = item_views(items);
                    assert(old_items.len() == items.len());
                    let place = self.pending_placeholder_index_by_thread.remove(id.as_str());
                    let ghost mut kept = old_items;
                    match place {
                        Some(n) => {
                            if n < self.threads[i].items.len() {
                                let _ = self.threads[i].items.remove(n);
                                proof {
                                    kept = old_items.remove(n as int);
                                    assert(item_views(self.threads@[i as int].items@) =~= kept);
                                }
                            }
                        },
                        None => {},
                    }
                    self.threads[i].items.push(
                        TimelineItem::text(
                            MessageRoleTag::System,
                            cat("SYSTEM ERROR: ", text.as_str()),
                        ),
                    );
                    let last: usize = self.threads[i].items.len() - 1;
                    let ghost after = kept.push(
                        message(MessageRoleTag::System, "SYSTEM ERROR: "@ + text@),
                    );
                    proof {
                        assert(item_views(self.threads@[i as int].items@) =~= after);
                        assert(after.len() == self.threads@[i as int].items@.len());
                        assert(self@.threads =~= st.threads.update(
                            i as int,
                            with_items(st.threads[i as int], after),
                        ));
                    }
                    self.selected_item_by_thread.insert(id, last);
                }
            },
            None => {},
        }
        self.status = Some(text);
    }
}

// ---- the course of a request -------------------------------------------------------------

/// How a request ended. What was answered is read from the thread afterwards; of a failure, what
/// went wrong is told.
#[derive(Debug)]
pub enum PendingOutcome {
    SystemTurn(Result<(), String>),
    SubagentTurn { thread_id: String, result: Result<(), String> },
    OpenThread { thread_id: String, result: Result<(), String> },
    WorkerFailed(String),
}

/// What a request was for, while its thread is being read again.
#[derive(Debug, Clone, Copy, PartialEq, Eq, Structural)]
pub enum FollowUpKind {
    SystemTurn,
    SubagentTurn,
    OpenThread,
}

/// A thread that is to be read again.
#[derive(Debug)]
pub struct FollowUp {
    pub kind: FollowUpKind,
    pub thread_id: String,
}

impl AppView {
    /// The state once reading a thread again has failed.
    pub open spec fn follow_failed(self, kind: FollowUpKind, text: Seq<char>) -> AppView {
        match kind {
            FollowUpKind::OpenThread => self.say(text),
            _ => self.failed(text),
        }
    }

    /// The state once a thread has been read again.
    pub open spec fn follow_done(self, kind: FollowUpKind, id: Seq<char>) -> AppView {
        match kind {
            FollowUpKind::SystemTurn => self.settled(id).say("Turn completed"@),
            FollowUpKind::SubagentTurn => self.settled(id).say(
                "Thread "@ + clipped(id, 8) + " updated"@,
            ),
            FollowUpKind::OpenThread => {
                let i = thread_index(self.threads, id);
                (if i < self.threads.len() {
                    self.switched(i)
                } else {
                    self
                }).say("Loaded thread "@ + clipped(id, 8))
            },
        }
    }
}

impl ChatApp {
    /// Takes in how a request ended. After a success the list of threads and the thread itself are
    /// to be read again.
    pub fn begin_outcome(&mut self, outcome: PendingOutcome) -> (r: Option<FollowUp>)
        requires
            old(self).wf(),
        ensures
            final(self).wf(),
            match outcome {
                PendingOutcome::SystemTurn(Ok(_)) => final(self)@ == old(self)@ && (
                r matches Some(f) && f.kind is SystemTurn && f.thread_id@ == SYSTEM_THREAD_ID@),
                PendingOutcome::SystemTurn(Err(e)) => final(self)@ == old(self)@.failed(e@)
                    && r is None,
                PendingOutcome::SubagentTurn { thread_id, result: Ok(_) } => final(self)@ == old(
                    self)@ && r == Some(
                    FollowUp { kind: FollowUpKind::SubagentTurn, thread_id },
                ),
                PendingOutcome::SubagentTurn { thread_id, result: Err(e) } => final(self)@ == old(
                    self)@.failed(e@) && r is None,
                PendingOutcome::OpenThread { thread_id, result: Ok(_) } => final(self)@ == old(
                    self)@ && r == Some(FollowUp { kind: FollowUpKind::OpenThread, thread_id }),
                PendingOutcome::OpenThread { thread_id, result: Err(e) } => final(self)@ == old(
                    self)@.say(e@) && r is None,
                PendingOutcome::WorkerFailed(e) => final(self)@ == old(self)@.failed(
                    "request worker failed: "@ + e@,
                ) && r is None,
            },
    {
        match outcome {
            PendingOutcome::SystemTurn(result) => match result {
                Ok(_) => Some(
                    FollowUp {
                        kind: FollowUpKind::SystemTurn,
                        thread_id: SYSTEM_THREAD_ID.to_owned(),
                    },
                ),
                Err(e) => {
                    self.mark_pending_failed(e);
                    None
                },
            },
            PendingOutcome::SubagentTurn { thread_id, result } => match result {
                Ok(_) => Some(FollowUp { kind: FollowUpKind::SubagentTurn, thread_id }),
                Err(e) => {
                    self.mark_pending_failed(e);
                    None
                },
            },
            PendingOutcome::OpenThread { thread_id, result } => match result {
                Ok(_) => Some(FollowUp { kind: FollowUpKind::OpenThread, thread_id }),
                Err(e) => {
                    self.status = Some(e);
                    None
                },
            },
            PendingOutcome::WorkerFailed(e) => {
                self.mark_pending_failed(cat("request worker failed: ", e.as_str()));
                None
            },
        }
    }

    /// Takes in the list of threads while a thread is read again, and says whether to go on and
    /// read the thread.
    pub fn follow_summaries(
        &mut self,
        follow: &FollowUp,
        listed: Result<Vec<ThreadSummary>, String>,
    ) -> (go_on: bool)
        requires
            old(self).wf(),
        ensures
            final(self).wf(),
            match listed {
                Ok(list) => go_on && exists|summaries: Seq<ThreadSummary>, system: ThreadSummary|
                    completed(list@, summaries) && speaks_for_system(summaries, system)
                        && final(self)@ == #[trigger] synced(old(self)@, summaries, system),
                Err(e) => !go_on && final(self)@ == old(self)@.follow_failed(follow.kind, e@),
            },
    {
        match listed {
            Ok(list) => {
                self.accept_thread_summaries(list);
                true
            },
            Err(e) => {
                self.follow_error(follow.kind, e);
                false
            },
        }
    }

    fn follow_error(&mut self, kind: FollowUpKind, e: String)
        requires
            old(self).wf(),
        ensures
            final(self).wf(),
            final(self)@ == old(self)@.follow_failed(kind, e@),
    {
        if kind == FollowUpKind::OpenThread {
            self.status = Some(e);
        } else {
            self.mark_pending_failed(e);
        }
    }

    /// Takes in the events of the thread that is read again.
    pub fn follow_events(&mut self, follow: &FollowUp, events: Result<Vec<ThreadEvent>, String>)
        requires
            old(self).wf(),
        ensures
            final(self).wf(),
            final(self)@ == (match events {
                Ok(list) => old(self)@.loaded(follow.thread_id@, list@).follow_done(
                    follow.kind,
                    follow.thread_id@,
                ),
                Err(e) => old(self)@.follow_failed(follow.kind, e@),
            }),
    {
        match events {
            Ok(list) => {
                self.load_thread(follow.thread_id.as_str(), &list);
                let short = short_thread_id(follow.thread_id.as_str());
                match follow.kind {
                    FollowUpKind::SystemTurn => {
                        self.clear_pending_marker(follow.thread_id.as_str());
                        self.status = Some("Turn completed".to_owned());
                    },
                    FollowUpKind::SubagentTurn => {
                        self.clear_pending_marker(follow.thread_id.as_str());
                        let mut text = cat("Thread ", short.as_str());
                        text.append(" updated");
                        self.status = Some(text);
                    },
                    FollowUpKind::OpenThread => {
                        let _ = self.select_thread_by_id(follow.thread_id.as_str());
                        self.status = Some(cat("Loaded thread ", short.as_str()));
                    },
                }
            },
            Err(e) => {
                self.follow_error(follow.kind, e);
            },
        }
    }

    /// Takes in the events of the orchestrator's thread when the chat begins.
    pub fn bootstrap(&mut self, events: &Vec<ThreadEvent>)
        requires
            old(self).wf(),
        ensures
            final(self).wf(),
            final(self)@ == ({
                let st = old(self)@.loaded(SYSTEM_THREAD_ID@, events@);
                let i = thread_index(st.threads, SYSTEM_THREAD_ID@);
                if i < st.threads.len() && st.threads[i].items.len() > 0 {
                    st.say("Loaded existing System0 context"@)
                } else {
                    st
                }
            }),
    {
        self.load_thread(SYSTEM_THREAD_ID, events);
        let i = find_by_id(&self.threads, SYSTEM_THREAD_ID);
        if i < self.threads.len() {
            assert(self@.threads[i as int].items.len() == self.threads@[i as int].items@.len());
            if self.threads[i].items.len() > 0 {
                self.status = Some("Loaded existing System0 context".to_owned());
            }
        }
    }

    /// The orchestrator's thread as a document.
    pub fn system_thread_snapshot(&self) -> (r: Json)
        ensures
            r@ == system_snapshot(self@),
    {
        let mut list: Vec<Json> = Vec::new();
        let i = find_by_id(&self.threads, SYSTEM_THREAD_ID);
        let ghost want = system_messages(self@);
        if i < self.threads.len() {
            let ghost items = self@.threads[i as int].items;
            let mut k: usize = 0;
            assert(json_views(list@) =~= want.take(0));
            while k < self.threads[i].items.len()
                invariant
                    i < self.threads@.len(),
                    k <= self.threads@[i as int].items@.len(),
                    items == item_views(self.threads@[i as int].items@),
                    want == items.map_values(|item: ItemView| snapshot(item)),
                    json_views(list@) == want.take(k as int),
                decreases self.threads@[i as int].items@.len() - k,
            {
                let ghost before = json_views(list@);
                let value = self.threads[i].items[k].to_snapshot_value();
                list.push(value);
                proof {
                    assert(items[k as int] == self.threads@[i as int].items@[k as int]@);
                    assert(json_views(list@) =~= before.push(value@));
                    assert(want.take(k + 1) =~= before.push(value@));
                }
                k = k + 1;
            }
            assert(want.take(k as int) =~= want);
        } else {
            assert(json_views(list@) =~= want);
        }
        let mut entries: Vec<(String, Json)> = Vec::new();
        put_entry(&mut entries, "thread_id", text(SYSTEM_THREAD_ID));
        put_entry(&mut entries, "messages", array(list));
        let r = object(entries);
        assert(r@->Object_0 =~= system_snapshot(self@)->Object_0);
        r
    }
}

/// The cards of the orchestrator's thread as documents.
pub open spec fn system_messages(st: AppView) -> Seq<JsonTree> {
    let i = thread_index(st.threads, SYSTEM_THREAD_ID@);
    if i < st.threads.len() {
        st.threads[i].items.map_values(|item: ItemView| snapshot(item))
    } else {
        Seq::empty()
    }
}

/// The orchestrator's thread as a document.
pub open spec fn system_snapshot(st: AppView) -> JsonTree {
    JsonTree::Object(
        seq![
            ("thread_id"@, JsonTree::Text(SYSTEM_THREAD_ID@)),
            ("messages"@, JsonTree::Array(system_messages(st))),
        ],
    )
}

// ---- laws --------------------------------------------------------------------------------

/// The orchestrator's thread is always the first in the list, and every other summary has one
/// thread, in order.
pub proof fn one_thread_for_each_summary(
    st: AppView,
    summaries: Seq<ThreadSummary>,
    system: ThreadSummary,
)
    ensures
        synced(st, summaries, system).threads.len() == 1 + agent_summaries(
            newest_first(summaries),
        ).len(),
        synced(st, summaries, system).threads[0] == revived(
            st.threads,
            SYSTEM_THREAD_ID@,
            system,
        ),
{
    lemma_revive_len(
        without(st.threads, SYSTEM_THREAD_ID@),
        agent_summaries(newest_first(summaries)),
    );
}

proof fn lemma_revive_len(pool: Seq<ThreadModel>, list: Seq<ThreadSummary>)
    ensures
        revive_all(pool, list).0.len() == list.len(),
    decreases list.len(),
{
    if list.len() > 0 {
        lemma_revive_len(pool, list.drop_last());
    }
}

/// A failure takes away the note that an answer is awaited, and no other card.
pub proof fn failing_keeps_the_conversation(st: AppView, text: Seq<char>)
    requires
        st.threads.len() > 0,
        st.threads[thread_index(st.threads, st.current().id)].items.len() + 2 <= usize::MAX,
    ensures
        ({
            let (sent, _) = st.sent(text);
            let i = thread_index(st.threads, st.current().id);
            forall|error: Seq<char>|
                (#[trigger] sent.failed(error)).threads[i].items == st.threads[i].items.push(
                    message(MessageRoleTag::User, text),
                ).push(message(MessageRoleTag::System, "SYSTEM ERROR: "@ + error))
        }),
{
    let id = st.current().id;
    let i = thread_index(st.threads, id);
    lemma_thread_index(st.threads, id);
    let (sent, _) = st.sent(text);
    assert(st.threads[st.current_index()].id == id);
    lemma_thread_index(sent.threads, id);
    assert(sent.threads[i].id == id);
    let j = thread_index(sent.threads, id);
    if j < i {
        assert(sent.threads[j] == st.threads[j]);
    }
    assert forall|error: Seq<char>|
        (#[trigger] sent.failed(error)).threads[i].items == st.threads[i].items.push(
            message(MessageRoleTag::User, text),
        ).push(message(MessageRoleTag::System, "SYSTEM ERROR: "@ + error)) by {
        let items = sent.threads[i].items;
        let at = sent.placeholders[id];
        assert(at == items.len() - 1);
        assert(items.remove(at as int) =~= st.threads[i].items.push(
            message(MessageRoleTag::User, text),
        ));
    }
}

/// A failure leaves no answer awaited.
pub proof fn failing_settles(st: AppView, text: Seq<char>)
    ensures
        st.failed(text).pending_thread is None,
        st.failed(text).status == Some(text),
{
}

proof fn lemma_times_are_ordered(a: Seq<char>, b: Seq<char>, c: Seq<char>)
    ensures
        text_le(a, b) && text_le(b, c) ==> text_le(a, c),
        text_le(a, b) || text_le(b, a),
{
    crate::text::text_order_is_total();
    crate::text::lemma_text_le_total(a, b);
    let o = crate::text::text_order();
    assert(o(a, b) == text_le(a, b));
    assert(o(b, c) == text_le(b, c));
    assert(o(a, c) == text_le(a, c));
}

/// Threads are listed by when they changed, the latest first, and none is lost.
pub proof fn threads_are_listed_newest_first(list: Seq<ThreadSummary>)
    ensures
        newest_first(list).to_multiset() == list.to_multiset(),
        newest_first(list).len() == list.len(),
        forall|i: int, j: int|
            0 <= i < j < newest_first(list).len() ==> text_le(
                (#[trigger] newest_first(list)[j]).updated_at@,
                (#[trigger] newest_first(list)[i]).updated_at@,
            ),
    decreases list.len(),
{
    if list.len() > 0 {
        let front = newest_first(list.drop_last());
        let s = list.last();
        let p = summary_place(front, s);
        let after = newest_first(list);
        threads_are_listed_newest_first(list.drop_last());
        lemma_summary_place(front, s);
        vstd::seq_lib::to_multiset_insert(front, p, s);
        assert(list =~= list.drop_last().push(s));
        vstd::seq_lib::to_multiset_build(list.drop_last(), s);
        assert forall|i: int, j: int| 0 <= i < j < after.len() implies text_le(
            (#[trigger] after[j]).updated_at@,
            (#[trigger] after[i]).updated_at@,
        ) by {
            if i < p && j == p {
                if i < p - 1 {
                    assert(text_le(front[p - 1].updated_at@, front[i].updated_at@));
                    lemma_times_are_ordered(
                        s.updated_at@,
                        front[p - 1].updated_at@,
                        front[i].updated_at@,
                    );
                }
            } else if i == p {
                assert(!text_le(s.updated_at@, front[j - 1].updated_at@));
                lemma_times_are_ordered(
                    s.updated_at@,
                    front[j - 1].updated_at@,
                    front[j - 1].updated_at@,
                );
            } else if i < p && j > p {
                assert(text_le(front[j - 1].updated_at@, front[i].updated_at@));
            } else if i > p {
                assert(text_le(front[j - 1].updated_at@, front[i - 1].updated_at@));
            } else {
                assert(text_le(front[j].updated_at@, front[i].updated_at@));
            }
        }
    } else {
        assert(list.to_multiset() =~= newest_first(list).to_multiset());
    }
}

/// Which entries are the orchestrator's, and what is said of it where it is not listed.
pub proof fn the_orchestrator_has_an_entry(s: ThreadSummary, list: Seq<ThreadSummary>)
    ensures
        of_system(s) <==> s.thread_id@ == "system0"@ || s.kind@ == "system"@,
        default_summary(s) ==> s.thread_id@ == "system0"@ && s.kind@ == "system"@ && s.active
            && !s.resurrected && s.state@ == "active"@ && s.latest_run_id is None
            && s.updated_at@.len() == 0 && opt_view(s.agent_id) == Some("system0"@),
        of_system(s) ==> system_summary(list.push(s)) == Some(s),
        !of_system(s) ==> system_summary(list.push(s)) == system_summary(list),
        system_summary(Seq::empty()) is None,
        agent_summaries(list) == list.filter(
            |x: ThreadSummary| !(x.thread_id@ == "system0"@ || x.kind@ == "system"@),
        ),
{
    assert(list.push(s).drop_last() =~= list);
    assert(agent_summaries(list) =~= list.filter(
        |x: ThreadSummary| !(x.thread_id@ == "system0"@ || x.kind@ == "system"@),
    )) by {
        let p = |x: ThreadSummary| !of_system(x);
        let q = |x: ThreadSummary| !(x.thread_id@ == "system0"@ || x.kind@ == "system"@);
        assert(p =~= q);
    }
}

proof fn lemma_without(pool: Seq<ThreadModel>, id: Seq<char>)
    ensures
        without(pool, id) == pool.filter(|t: ThreadModel| t.id != id),
    decreases pool.len(),
{
    reveal(Seq::filter);
    if pool.len() > 0 {
        lemma_without(pool.drop_last(), id);
    }
}

proof fn lemma_last_with(pool: Seq<ThreadModel>, id: Seq<char>)
    ensures
        match last_with(pool, id) {
            Some(t) => pool.contains(t) && t.id == id,
            None => forall|i: int| 0 <= i < pool.len() ==> (#[trigger] pool[i]).id != id,
        },
    decreases pool.len(),
{
    if pool.len() > 0 {
        let front = pool.drop_last();
        if pool.last().id == id {
            assert(pool[pool.len() - 1] == pool.last());
        } else {
            lemma_last_with(front, id);
            match last_with(front, id) {
                Some(t) => {
                    let i = choose|i: int| 0 <= i < front.len() && front[i] == t;
                    assert(pool[i] == t);
                },
                None => {
                    assert forall|i: int| 0 <= i < pool.len() implies (#[trigger] pool[i]).id != id by {
                        if i < front.len() {
                            assert(front[i] == pool[i]);
                        }
                    }
                },
            }
        }
    }
}

/// What is taken from the threads is the one with the name, and all others stay in their order.
pub proof fn threads_are_taken_by_name(pool: Seq<ThreadModel>, id: Seq<char>, i: int)
    requires
        forall|a: int, b: int|
            0 <= a < b < pool.len() ==> (#[trigger] pool[a]).id != (#[trigger] pool[b]).id,
    ensures
        without(pool, id) == pool.filter(|t: ThreadModel| t.id != id),
        0 <= i < pool.len() && pool[i].id == id ==> last_with(pool, id) == Some(pool[i]),
        (forall|k: int| 0 <= k < pool.len() ==> (#[trigger] pool[k]).id != id) ==> last_with(
            pool,
            id,
        ) is None,
{
    lemma_without(pool, id);
    lemma_last_with(pool, id);
    match last_with(pool, id) {
        Some(t) => {
            let k = choose|k: int| 0 <= k < pool.len() && pool[k] == t;
            if 0 <= i < pool.len() && pool[i].id == id && i != k {
                if i < k {
                    assert(pool[i].id != pool[k].id);
                } else {
                    assert(pool[k].id != pool[i].id);
                }
            }
        },
        None => {},
    }
}

/// A thread that is listed again keeps its cards and takes over what the list says; a new one is as
/// it is listed.
pub proof fn known_threads_keep_their_cards(pool: Seq<ThreadModel>, id: Seq<char>, s: ThreadSummary)
    ensures
        last_with(pool, id) matches Some(t) ==> revived(pool, id, s).items == t.items && revived(
            pool,
            id,
            s,
        ).id == t.id && revived(pool, id, s).kind == t.kind,
        last_with(pool, id) is None ==> revived(pool, id, s).items.len() == 0 && revived(pool, id, s).id
            == s.thread_id@,
        revived(pool, id, s).state == s.state@,
        revived(pool, id, s).active == s.active,
        revived(pool, id, s).resurrected == s.resurrected,
        revived(pool, id, s).agent_id == opt_view(s.agent_id),
{
}

/// A saved thread with nothing to show says how to go on with it; any other is left as it is.
pub proof fn saved_threads_say_how_to_go_on(t: ThreadModel)
    ensures
        t.items.len() > 0 || !t.read_only ==> noted_if_saved(t) == t,
        t.items.len() == 0 && t.read_only ==> noted_if_saved(t).items.len() == 1 && (
        noted_if_saved(t).items[0] matches ItemView::Text { role, text, .. } && role is System && text
            == "Saved sub-agent thread. Press Enter to resurrect and continue."@)
            && noted_if_saved(t).id == t.id && noted_if_saved(t).read_only,
{
}

proof fn lemma_revived_id(pool: Seq<ThreadModel>, s: ThreadSummary)
    ensures
        revived(pool, s.thread_id@, s).id == s.thread_id@,
{
    lemma_last_with(pool, s.thread_id@);
}

proof fn lemma_revive_ids(pool: Seq<ThreadModel>, list: Seq<ThreadSummary>, i: int)
    requires
        0 <= i < list.len(),
    ensures
        revive_all(pool, list).0.len() == list.len(),
        revive_all(pool, list).0[i].id == list[i].thread_id@,
        revive_all(pool, list).0[i].state == list[i].state@,
        revive_all(pool, list).0[i].active == list[i].active,
    decreases list.len(),
{
    let front = list.drop_last();
    let (done, left) = revive_all(pool, front);
    lemma_revived_id(left, list.last());
    if front.len() > 0 {
        lemma_revive_ids(
            pool,
            front,
            if i < front.len() {
                i
            } else {
                0
            },
        );
    }
}

/// The orchestrator's thread comes first, and then the agents' in the order of the list, each under
/// its name and as the list says.
pub proof fn threads_follow_the_order_of_the_list(
    st: AppView,
    summaries: Seq<ThreadSummary>,
    system: ThreadSummary,
    i: int,
)
    requires
        0 <= i < agent_summaries(newest_first(summaries)).len(),
    ensures
        ({
            let others = agent_summaries(newest_first(summaries));
            let threads = synced(st, summaries, system).threads;
            &&& threads[1 + i].id == others[i].thread_id@
            &&& threads[1 + i].state == others[i].state@
            &&& threads[1 + i].active == others[i].active
            &&& threads[0].state == system.state@
        }),
{
    let others = agent_summaries(newest_first(summaries));
    lemma_revive_ids(without(st.threads, SYSTEM_THREAD_ID@), others, i);
}

/// The thread on the screen stays on the screen as long as it is listed, and so does the mark in the
/// sidebar. Nothing is changed about what is typed or selected.
pub proof fn the_screen_stays_where_it_is(
    st: AppView,
    summaries: Seq<ThreadSummary>,
    system: ThreadSummary,
)
    requires
        st.threads.len() > 0,
        synced(st, summaries, system).threads.len() <= usize::MAX,
    ensures
        ({
            let after = synced(st, summaries, system);
            let listed = exists|k: int|
                0 <= k < after.threads.len() && (#[trigger] after.threads[k]).id == st.current().id;
            &&& after.composer == st.composer
            &&& after.selected == st.selected
            &&& after.focus == st.focus
            &&& after.status == st.status
            &&& listed ==> after.active_thread < after.threads.len()
                && after.threads[after.active_thread as int].id == st.current().id
            &&& !listed ==> after.active_thread == 0
        }),
{
    let after = synced(st, summaries, system);
    lemma_thread_index(after.threads, st.current().id);
    one_thread_for_each_summary(st, summaries, system);
}

/// A list without the orchestrator is completed by it; any other stays as it is.
pub proof fn lists_are_completed(listed: Seq<ThreadSummary>, full: Seq<ThreadSummary>)
    requires
        completed(listed, full),
    ensures
        (exists|k: int| 0 <= k < listed.len() && (#[trigger] listed[k]).thread_id@ == "system0"@)
            ==> full == listed,
        (forall|k: int| 0 <= k < listed.len() ==> (#[trigger] listed[k]).thread_id@ != "system0"@)
            ==> full.len() == listed.len() + 1 && listed.is_prefix_of(full)
            && full.last().thread_id@ == "system0"@,
        exists|k: int| 0 <= k < full.len() && (#[trigger] full[k]).thread_id@ == "system0"@,
{
    if !lists_system(listed) {
        assert(listed =~= full.take(listed.len() as int));
        assert(full[full.len() - 1].thread_id@ == "system0"@);
    }
}

/// A thread is loaded with the cards of its events, whatever it showed before, and is no longer
/// waited for. What was selected stays so where it can.
pub proof fn threads_are_loaded_from_events(
    st: AppView,
    id: Seq<char>,
    events: Seq<ThreadEvent>,
    i: int,
)
    requires
        0 <= i < st.threads.len(),
        st.threads[i].id == id,
        forall|a: int, b: int|
            0 <= a < b < st.threads.len() ==> (#[trigger] st.threads[a]).id != (
            #[trigger] st.threads[b]).id,
    ensures
        ({
            let after = st.loaded(id, events);
            let items = after.threads[i].items;
            &&& st.threads[i].kind is System ==> items == cards(ThreadKind::System, events)
            &&& st.threads[i].kind is Subagent && (exists|k: int|
                0 <= k < cards(ThreadKind::Subagent, events).len() && (
                #[trigger] cards(ThreadKind::Subagent, events)[k]) is Text && cards(
                    ThreadKind::Subagent,
                    events,
                )[k]->role is User) ==> items == cards(ThreadKind::Subagent, events)
            &&& after.threads[i].id == id
            &&& after.threads.len() == st.threads.len()
            &&& forall|j: int|
                0 <= j < st.threads.len() && j != i ==> (#[trigger] after.threads[j])
                    == st.threads[j]
            &&& after.pending_thread is None
            &&& !after.placeholders.dom().contains(id)
            &&& st.selected.dom().contains(id) && st.selected[id] + 1 < items.len()
                ==> after.selected[id] == st.selected[id]
            &&& !st.selected.dom().contains(id) && 0 < items.len() <= usize::MAX
                ==> after.selected[id] == items.len() - 1
            &&& after.composer == st.composer
        }),
{
    lemma_thread_index(st.threads, id);
    let k = thread_index(st.threads, id);
    if k < i {
        assert(st.threads[k].id != st.threads[i].id);
    }
    if i < k {
        assert(st.threads[i].id != id);
    }
}

/// A thread that is not listed is the orchestrator's by its name, or else an agent's.
pub proof fn kinds_are_told_by_name(st: AppView, id: Seq<char>)
    requires
        forall|k: int| 0 <= k < st.threads.len() ==> (#[trigger] st.threads[k]).id != id,
    ensures
        id == "system0"@ ==> st.kind_of(id) is System,
        id != "system0"@ ==> st.kind_of(id) is Subagent,
        st.settled(id).pending_thread is None,
        st.settled(id).placeholders == st.placeholders.remove(id),
        st.settled(id).threads == st.threads,
{
    lemma_thread_index(st.threads, id);
}

/// A request that failed says why in the thread that waited for it, in place of the note that an
/// answer was awaited.
pub proof fn failures_are_shown_where_they_were_awaited(
    st: AppView,
    text: Seq<char>,
    i: int,
)
    requires
        0 <= i < st.threads.len(),
        st.pending_thread == Some(st.threads[i].id),
        forall|a: int, b: int|
            0 <= a < b < st.threads.len() ==> (#[trigger] st.threads[a]).id != (
            #[trigger] st.threads[b]).id,
        st.threads[i].items.len() < usize::MAX,
    ensures
        ({
            let after = st.failed(text);
            let had = st.threads[i].items;
            let has = after.threads[i].items;
            let id = st.threads[i].id;
            let marked = st.placeholders.dom().contains(id) && st.placeholders[id] < had.len();
            &&& marked ==> has.drop_last() == had.remove(st.placeholders[id] as int)
            &&& !marked ==> has.drop_last() == had
            &&& has.last() matches ItemView::Text { role, text: said, .. } && role is System && said
                == "SYSTEM ERROR: "@ + text
            &&& after.selected[id] == has.len() - 1
            &&& !after.placeholders.dom().contains(id)
            &&& after.pending_thread is None
            &&& after.status == Some(text)
            &&& forall|j: int|
                0 <= j < st.threads.len() && j != i ==> (#[trigger] after.threads[j])
                    == st.threads[j]
        }),
{
    let id = st.threads[i].id;
    lemma_thread_index(st.threads, id);
    let k = thread_index(st.threads, id);
    if k < i {
        assert(st.threads[k].id != st.threads[i].id);
    }
    if i < k {
        assert(st.threads[i].id != id);
    }
    let had = st.threads[i].items;
    let has = st.failed(text).threads[i].items;
    if st.placeholders.dom().contains(id) && st.placeholders[id] < had.len() {
        assert(has.drop_last() =~= had.remove(st.placeholders[id] as int));
    } else {
        assert(has.drop_last() =~= had);
    }
}

/// What is said once a request is done, and which thread is then shown.
pub proof fn done_requests_are_told(st: AppView, id: Seq<char>, text: Seq<char>)
    ensures
        st.follow_done(FollowUpKind::SystemTurn, id).status == Some("Turn completed"@),
        st.follow_done(FollowUpKind::SubagentTurn, id).status == Some(
            "Thread "@ + clipped(id, 8) + " updated"@,
        ),
        st.follow_done(FollowUpKind::OpenThread, id).status == Some("Loaded thread "@ + clipped(id, 8)),
        st.follow_done(FollowUpKind::SystemTurn, id).pending_thread is None,
        st.follow_done(FollowUpKind::SubagentTurn, id).pending_thread is None,
        st.follow_done(FollowUpKind::SystemTurn, id).threads == st.threads,
        st.follow_done(FollowUpKind::OpenThread, id).threads == st.threads,
        thread_index(st.threads, id) < st.threads.len() ==> st.follow_done(
            FollowUpKind::OpenThread,
            id,
        ).active_thread == thread_index(st.threads, id) as usize,
        st.follow_failed(FollowUpKind::OpenThread, text).threads == st.threads,
        st.follow_failed(FollowUpKind::OpenThread, text).status == Some(text),
        st.follow_failed(FollowUpKind::SystemTurn, text) == st.failed(text),
        st.follow_failed(FollowUpKind::SubagentTurn, text) == st.failed(text),
{
}

/// A snapshot of the orchestrator's thread has its cards in their order.
pub proof fn snapshots_hold_the_conversation(st: AppView, i: int, k: int)
    requires
        0 <= i < st.threads.len(),
        st.threads[i].id == "system0"@,
        forall|j: int| 0 <= j < i ==> (#[trigger] st.threads[j]).id != "system0"@,
        0 <= k < st.threads[i].items.len(),
    ensures
        system_snapshot(st).field("thread_id"@) == Some(JsonTree::Text("system0"@)),
        system_snapshot(st).field("messages"@) matches Some(JsonTree::Array(list)) && list.len()
            == st.threads[i].items.len() && list[k] == snapshot(st.threads[i].items[k]),
{
    reveal_strlit("thread_id");
    reveal_strlit("messages");
    assert("thread_id"@.len() == 9 && "messages"@.len() == 8);
    lemma_thread_index(st.threads, "system0"@);
    reveal_with_fuel(crate::json::entry, 3);
}

/// The orchestrator is spoken for by its entry in the list, or by what is said of it where it has
/// none.
pub proof fn the_orchestrator_is_spoken_for(summaries: Seq<ThreadSummary>, system: ThreadSummary)
    requires
        speaks_for_system(summaries, system),
    ensures
        system_summary(newest_first(summaries)) matches Some(s) ==> system == s,
        system_summary(newest_first(summaries)) is None ==> default_summary(system),
{
}

proof fn lemma_last_without(pool: Seq<ThreadModel>, id: Seq<char>, other: Seq<char>)
    requires
        id != other,
    ensures
        last_with(without(pool, other), id) == last_with(pool, id),
    decreases pool.len(),
{
    if pool.len() > 0 {
        let front = pool.drop_last();
        lemma_last_without(front, id, other);
        if pool.last().id != other {
            assert(without(pool, other).drop_last() =~= without(front, other));
        }
    }
}

proof fn lemma_left_over(pool: Seq<ThreadModel>, list: Seq<ThreadSummary>, id: Seq<char>)
    requires
        forall|k: int| 0 <= k < list.len() ==> (#[trigger] list[k]).thread_id@ != id,
    ensures
        last_with(revive_all(pool, list).1, id) == last_with(pool, id),
    decreases list.len(),
{
    if list.len() > 0 {
        let front = list.drop_last();
        assert forall|k: int| 0 <= k < front.len() implies (#[trigger] front[k]).thread_id@ != id by {
            assert(front[k] == list[k]);
        }
        lemma_left_over(pool, front, id);
        assert(list[list.len() - 1].thread_id@ != id);
        lemma_last_without(revive_all(pool, front).1, id, list.last().thread_id@);
    }
}

/// An agent's thread that was known keeps its cards through a new list.
pub proof fn listed_threads_keep_their_cards(
    pool: Seq<ThreadModel>,
    list: Seq<ThreadSummary>,
    i: int,
)
    requires
        0 <= i < list.len(),
        forall|a: int, b: int|
            0 <= a < b < list.len() ==> (#[trigger] list[a]).thread_id@ != (
            #[trigger] list[b]).thread_id@,
    ensures
        revive_all(pool, list).0.len() == list.len(),
        last_with(pool, list[i].thread_id@) matches Some(t) ==> t.items.len() > 0 ==> revive_all(
            pool,
            list,
        ).0[i].items == t.items,
    decreases list.len(),
{
    let front = list.drop_last();
    assert forall|a: int, b: int| 0 <= a < b < front.len() implies (#[trigger] front[a]).thread_id@
        != (#[trigger] front[b]).thread_id@ by {
        assert(front[a] == list[a] && front[b] == list[b]);
    }
    lemma_revive_len(pool, list);
    if i < front.len() {
        listed_threads_keep_their_cards(pool, front, i);
        lemma_revive_len(pool, front);
        assert(front[i] == list[i]);
    } else {
        lemma_revive_len(pool, front);
        assert forall|k: int| 0 <= k < front.len() implies (#[trigger] front[k]).thread_id@
            != list[i].thread_id@ by {
            assert(front[k] == list[k]);
            assert(list[k].thread_id@ != list[i].thread_id@);
        }
        lemma_left_over(pool, front, list[i].thread_id@);
    }
}

/// Where no user speaks in an agent's thread, that is noted before its cards.
pub proof fn threads_without_a_user_are_noted(st: AppView, id: Seq<char>, events: Seq<ThreadEvent>)
    requires
        forall|k: int|
            0 <= k < cards(ThreadKind::Subagent, events).len() ==> !((#[trigger] cards(
                ThreadKind::Subagent,
                events,
            )[k]) is Text && cards(ThreadKind::Subagent, events)[k]->role is User),
    ensures
        loaded_cards(ThreadKind::Subagent, events).skip(1) == cards(ThreadKind::Subagent, events),
        loaded_cards(ThreadKind::Subagent, events)[0] matches ItemView::Text { role, text, .. } && role
            is System && text == "Initial instruction unavailable (legacy run format)"@,
        loaded_cards(ThreadKind::System, events) == cards(ThreadKind::System, events),
{
    let items = cards(ThreadKind::Subagent, events);
    assert((seq![no_instruction()] + items).skip(1) =~= items);
}

} // verus!

//! The conversation of one task: what was said, what it costs, and what of it the model gets.

use vstd::prelude::*;
use crate::json::{compact, compact_text};
use crate::lists::{lemma_filter_none, lemma_filter_step};
use crate::text::cat;
use crate::thread::{
    ChatMessage, ContentPart, MessageContent, MessageRole, TruncationStrategy,
};
use crate::tool::{call_views, copy_calls, CallView, ToolCall, ToolOutput, ToolResult};

verus! {

/// Ephemeral conversation context for a single task execution.
#[derive(Debug)]
pub struct ConversationContext {
    pub messages: Vec<ChatMessage>,
    pub token_budget: u32,
    pub token_used: u32,
    pub truncation_strategy: TruncationStrategy,
}

/// What messages take together.
pub open spec fn total(messages: Seq<ChatMessage>) -> nat
    decreases messages.len(),
{
    if messages.len() == 0 {
        0
    } else {
        total(messages.drop_last()) + messages.last().token_estimate as nat
    }
}

/// Messages of the system.
pub open spec fn of_system() -> spec_fn(ChatMessage) -> bool {
    |m: ChatMessage| m.role == MessageRole::System
}

/// Messages of anyone else.
pub open spec fn of_others() -> spec_fn(ChatMessage) -> bool {
    |m: ChatMessage| m.role != MessageRole::System
}

/// The last `n` of a list, or all of it.
pub open spec fn last_of<T>(list: Seq<T>, n: nat) -> Seq<T> {
    if n < list.len() {
        list.skip(list.len() - n)
    } else {
        list
    }
}

/// What a window over the last `n` messages shows: all that the system said, then the last of the
/// rest.
pub open spec fn windowed(messages: Seq<ChatMessage>, n: nat) -> Seq<ChatMessage> {
    messages.filter(of_system()) + last_of(messages.filter(of_others()), n)
}

/// The position of the first message that is not of the system, or the number of messages.
pub open spec fn first_other(messages: Seq<ChatMessage>) -> int
    decreases messages.len(),
{
    if messages.len() == 0 || messages[0].role != MessageRole::System {
        0
    } else {
        1 + first_other(messages.drop_first())
    }
}

/// What is left of messages, and what they count for, when the oldest that are not of the system
/// are dropped until the rest fits.
pub open spec fn fitted(messages: Seq<ChatMessage>, used: int, budget: int) -> (
    Seq<ChatMessage>,
    int,
)
    decreases messages.len(),
{
    let k = first_other(messages);
    if used > budget && messages.len() > 1 && 0 <= k < messages.len() {
        let dropped = messages[k].token_estimate;
        fitted(
            messages.remove(k),
            if used >= dropped {
                used - dropped
            } else {
                0
            },
            budget,
        )
    } else {
        (messages, used)
    }
}

proof fn lemma_first_other(messages: Seq<ChatMessage>)
    ensures
        0 <= first_other(messages) <= messages.len(),
        first_other(messages) < messages.len() ==> messages[first_other(messages)].role
            != MessageRole::System,
        forall|j: int|
            0 <= j < first_other(messages) ==> (#[trigger] messages[j]).role
                == MessageRole::System,
    decreases messages.len(),
{
    if messages.len() > 0 && messages[0].role == MessageRole::System {
        let rest = messages.drop_first();
        lemma_first_other(rest);
        assert forall|j: int| 0 <= j < first_other(messages) implies (
        #[trigger] messages[j]).role == MessageRole::System by {
            if j > 0 {
                assert(rest[j - 1] == messages[j]);
            }
        }
    }
}

proof fn lemma_first_other_is(messages: Seq<ChatMessage>, k: int)
    requires
        0 <= k <= messages.len(),
        k < messages.len() ==> messages[k].role != MessageRole::System,
        forall|j: int| 0 <= j < k ==> (#[trigger] messages[j]).role == MessageRole::System,
    ensures
        first_other(messages) == k,
{
    lemma_first_other(messages);
    let f = first_other(messages);
    if f < k {
        assert(messages[f].role == MessageRole::System);
    } else if k < f {
        assert(messages[k].role == MessageRole::System);
    }
}

proof fn lemma_total_take(messages: Seq<ChatMessage>, i: int, j: int)
    requires
        0 <= i <= j <= messages.len(),
    ensures
        total(messages.take(i)) <= total(messages.take(j)),
    decreases j - i,
{
    if i < j {
        assert(messages.take(j).drop_last() =~= messages.take(j - 1));
        lemma_total_take(messages, i, j - 1);
    }
}

/// What two lists of messages take together.
pub proof fn lemma_total_add(a: Seq<ChatMessage>, b: Seq<ChatMessage>)
    ensures
        total(a + b) == total(a) + total(b),
    decreases b.len(),
{
    if b.len() == 0 {
        assert(a + b =~= a);
    } else {
        assert((a + b).drop_last() =~= a + b.drop_last());
        lemma_total_add(a, b.drop_last());
    }
}

/// A message that the model gets.
#[derive(Debug)]
pub enum PromptMessage {
    /// Something that the user says.
    User(String),
    /// Something that the model said.
    Assistant(String),
    /// Tools that the model asked for, in one turn.
    ToolCalls(Vec<ToolCall>),
    /// What a tool gave back for a call.
    ToolResult { call_id: String, text: String },
}

/// What a message that the model gets holds.
#[verifier::ext_equal]
pub enum PromptView {
    User(Seq<char>),
    Assistant(Seq<char>),
    ToolCalls(Seq<CallView>),
    ToolResult { call_id: Seq<char>, text: Seq<char> },
}

impl View for PromptMessage {
    type V = PromptView;

    open spec fn view(&self) -> PromptView {
        match self {
            PromptMessage::User(text) => PromptView::User(text@),
            PromptMessage::Assistant(text) => PromptView::Assistant(text@),
            PromptMessage::ToolCalls(calls) => PromptView::ToolCalls(call_views(calls@)),
            PromptMessage::ToolResult { call_id, text } => PromptView::ToolResult {
                call_id: call_id@,
                text: text@,
            },
        }
    }
}

/// What the messages of a list hold.
pub open spec fn prompt_views(list: Seq<PromptMessage>) -> Seq<PromptView> {
    Seq::new(list.len(), |i: int| list[i]@)
}

/// The texts among the parts of a message, as messages of the user.
pub open spec fn part_prompts(parts: Seq<ContentPart>) -> Seq<PromptView>
    decreases parts.len(),
{
    if parts.len() == 0 {
        Seq::empty()
    } else {
        let before = part_prompts(parts.drop_last());
        match parts.last() {
            ContentPart::Text(text) => before.push(PromptView::User(text@)),
            _ => before,
        }
    }
}

/// The text of what a tool gave back.
pub open spec fn output_text(output: ToolOutput) -> Seq<char> {
    match output {
        ToolOutput::Success(value) => compact_text(value@),
        ToolOutput::Error(error) => "Error: "@ + error@,
    }
}

/// What the model gets of a message. It gets nothing of what the system says: that comes as the
/// system prompt.
pub open spec fn prompts_of(message: ChatMessage) -> Seq<PromptView> {
    match (message.role, message.content) {
        (MessageRole::User, MessageContent::Text(text)) => seq![PromptView::User(text@)],
        (MessageRole::Assistant, MessageContent::Text(text)) => seq![PromptView::Assistant(text@)],
        (MessageRole::Assistant, MessageContent::ToolCalls(calls)) => if calls@.len() > 0 {
            seq![PromptView::ToolCalls(call_views(calls@))]
        } else {
            Seq::empty()
        },
        (MessageRole::Tool, MessageContent::ToolResult(result)) => seq![
            PromptView::ToolResult { call_id: result.call_id@, text: output_text(result.output) },
        ],
        (MessageRole::System, _) => Seq::empty(),
        (_, MessageContent::Mixed(parts)) => part_prompts(parts@),
        _ => Seq::empty(),
    }
}

/// What the model gets of the messages of a conversation.
pub open spec fn prompts(messages: Seq<ChatMessage>) -> Seq<PromptView>
    decreases messages.len(),
{
    if messages.len() == 0 {
        Seq::empty()
    } else {
        prompts(messages.drop_last()) + prompts_of(messages.last())
    }
}

/// The first text that the system says.
pub open spec fn first_system_text(messages: Seq<ChatMessage>) -> Option<Seq<char>>
    decreases messages.len(),
{
    if messages.len() == 0 {
        None
    } else {
        match (messages[0].role, messages[0].content) {
            (MessageRole::System, MessageContent::Text(text)) => Some(text@),
            _ => first_system_text(messages.drop_first()),
        }
    }
}

fn put_prompt(out: &mut Vec<PromptMessage>, message: PromptMessage)
    ensures
        prompt_views(final(out)@) == prompt_views(old(out)@).push(message@),
{
    let ghost before = prompt_views(out@);
    out.push(message);
    assert(prompt_views(out@) =~= before.push(message@));
}

fn put_prompts_of(out: &mut Vec<PromptMessage>, message: &ChatMessage)
    ensures
        prompt_views(final(out)@) == prompt_views(old(out)@) + prompts_of(*message),
{
    let ghost before = prompt_views(out@);
    proof {
        assert(before + Seq::<PromptView>::empty() =~= before);
        assert forall|v: PromptView| #[trigger] before.push(v) == before + seq![v] by {
            assert(before.push(v) =~= before + seq![v]);
        }
    }
    match (&message.role, &message.content) {
        (MessageRole::User, MessageContent::Text(text)) => {
            put_prompt(out, PromptMessage::User(text.clone()));
        },
        (MessageRole::Assistant, MessageContent::Text(text)) => {
            put_prompt(out, PromptMessage::Assistant(text.clone()));
        },
        (MessageRole::Assistant, MessageContent::ToolCalls(calls)) => {
            if calls.len() > 0 {
                put_prompt(out, PromptMessage::ToolCalls(copy_calls(calls)));
            }
        },
        (MessageRole::Tool, MessageContent::ToolResult(result)) => {
            let text = match &result.output {
                ToolOutput::Success(value) => compact(value),
                ToolOutput::Error(error) => cat("Error: ", error.as_str()),
            };
            put_prompt(out, PromptMessage::ToolResult { call_id: result.call_id.clone(), text });
        },
        (MessageRole::System, _) => {},
        (_, MessageContent::Mixed(parts)) => {
            let mut i: usize = 0;
            assert(parts@.take(0) =~= Seq::empty());
            while i < parts.len()
                invariant
                    i <= parts@.len(),
                    prompt_views(out@) == before + part_prompts(parts@.take(i as int)),
                decreases parts@.len() - i,
            {
                proof {
                    assert(parts@.take(i + 1).drop_last() =~= parts@.take(i as int));
                    assert(parts@.take(i + 1).last() == parts@[i as int]);
                }
                if let ContentPart::Text(text) = &parts[i] {
                    put_prompt(out, PromptMessage::User(text.clone()));
                    assert(prompt_views(out@) =~= before + part_prompts(parts@.take(i + 1)));
                }
                i = i + 1;
            }
            assert(parts@.take(i as int) =~= parts@);
        },
        _ => {},
    }
}

impl ConversationContext {
    /// What is used is what the messages take.
    pub open spec fn counted(self) -> bool {
        self.token_used == total(self.messages@)
    }

    pub fn new(token_budget: u32, truncation_strategy: TruncationStrategy) -> (r: Self)
        ensures
            r.messages@ == Seq::<ChatMessage>::empty(),
            r.token_budget == token_budget,
            r.token_used == 0,
            r.truncation_strategy == truncation_strategy,
            r.counted(),
    {
        ConversationContext {
            messages: Vec::new(),
            token_budget,
            token_used: 0,
            truncation_strategy,
        }
    }

    pub fn add_message(&mut self, msg: ChatMessage)
        requires
            old(self).token_used + msg.token_estimate <= u32::MAX,
        ensures
            final(self).messages@ == old(self).messages@.push(msg),
            final(self).token_used == old(self).token_used + msg.token_estimate,
            final(self).token_budget == old(self).token_budget,
            final(self).truncation_strategy == old(self).truncation_strategy,
            old(self).counted() ==> final(self).counted(),
    {
        self.token_used = self.token_used + msg.token_estimate;
        self.messages.push(msg);
        assert(self.messages@.drop_last() =~= old(self).messages@);
    }

    pub fn token_count(&self) -> (r: u32)
        ensures
            r == self.token_used,
    {
        self.token_used
    }

    /// What is left of the messages when the budget is exceeded, and what they count for.
    pub open spec fn truncated(self) -> (Seq<ChatMessage>, int) {
        if self.token_used <= self.token_budget {
            (self.messages@, self.token_used as int)
        } else {
            match self.truncation_strategy {
                TruncationStrategy::SlidingWindow { keep_last } => {
                    let kept = windowed(self.messages@, keep_last as nat);
                    (kept, total(kept) as int)
                },
                TruncationStrategy::Summarize { summarizer_model, threshold_tokens } => {
                    if self.token_used > threshold_tokens {
                        fitted(self.messages@, self.token_used as int, self.token_budget as int)
                    } else {
                        (self.messages@, self.token_used as int)
                    }
                },
                TruncationStrategy::Strict => fitted(
                    self.messages@,
                    self.token_used as int,
                    self.token_budget as int,
                ),
            }
        }
    }

    /// Apply truncation if budget is exceeded.
    pub fn maybe_truncate(&mut self)
        requires
            old(self).truncated().1 <= u32::MAX,
        ensures
            final(self).messages@ == old(self).truncated().0,
            final(self).token_used == old(self).truncated().1,
            final(self).token_budget == old(self).token_budget,
            final(self).truncation_strategy == old(self).truncation_strategy,
    {
        if self.token_used <= self.token_budget {
            return;
        }
        match &self.truncation_strategy {
            TruncationStrategy::SlidingWindow { keep_last } => {
                let keep: usize = *keep_last;
                self.keep_window(keep);
            },
            TruncationStrategy::Summarize { summarizer_model, threshold_tokens } => {
                if self.token_used > *threshold_tokens {
                    self.strict_truncate();
                }
            },
            TruncationStrategy::Strict => {
                self.strict_truncate();
            },
        }
    }

    fn keep_window(&mut self, keep: usize)
        requires
            total(windowed(old(self).messages@, keep as nat)) <= u32::MAX,
        ensures
            final(self).messages@ == windowed(old(self).messages@, keep as nat),
            final(self).token_used == total(final(self).messages@),
            final(self).token_budget == old(self).token_budget,
            final(self).truncation_strategy == old(self).truncation_strategy,
    {
        let ghost all = self.messages@;
        let mut rest: Vec<ChatMessage> = Vec::new();
        std::mem::swap(&mut rest, &mut self.messages);
        let mut system: Vec<ChatMessage> = Vec::new();
        let mut others: Vec<ChatMessage> = Vec::new();
        let ghost mut i: int = 0;
        proof {
            lemma_filter_none(all, of_system());
            lemma_filter_none(all, of_others());
            assert(all.skip(0) =~= all);
        }
        while rest.len() > 0
            invariant
                0 <= i <= all.len(),
                rest@ == all.skip(i),
                system@ == all.take(i).filter(of_system()),
                others@ == all.take(i).filter(of_others()),
            decreases rest@.len(),
        {
            let message = rest.remove(0);
            proof {
                lemma_filter_step(all, i, of_system());
                lemma_filter_step(all, i, of_others());
                assert(rest@ =~= all.skip(i + 1));
                i = i + 1;
            }
            match message.role {
                MessageRole::System => {
                    system.push(message);
                },
                _ => {
                    others.push(message);
                },
            }
        }
        proof {
            assert(all.take(i) =~= all);
        }
        let ghost full = others@;
        let ghost mut d: int = 0;
        assert(full.skip(0) =~= full);
        while others.len() > keep
            invariant
                0 <= d <= full.len(),
                others@ == full.skip(d),
                d > 0 ==> others@.len() >= keep,
            decreases others@.len(),
        {
            let _ = others.remove(0);
            proof {
                assert(others@ =~= full.skip(d + 1));
                d = d + 1;
            }
        }
        assert(others@ =~= last_of(full, keep as nat));
        system.append(&mut others);
        self.messages = system;
        assert(self.messages@ =~= windowed(all, keep as nat));
        self.recalculate_tokens();
    }

    fn strict_truncate(&mut self)
        ensures
            (final(self).messages@, final(self).token_used as int) == fitted(
                old(self).messages@,
                old(self).token_used as int,
                old(self).token_budget as int,
            ),
            final(self).token_budget == old(self).token_budget,
            final(self).truncation_strategy == old(self).truncation_strategy,
    {
        while self.token_used > self.token_budget && self.messages.len() > 1
            invariant
                fitted(
                    old(self).messages@,
                    old(self).token_used as int,
                    old(self).token_budget as int,
                ) == fitted(
                    self.messages@,
                    self.token_used as int,
                    self.token_budget as int,
                ),
                self.token_budget == old(self).token_budget,
                self.truncation_strategy == old(self).truncation_strategy,
            decreases self.messages@.len(),
        {
            let k = self.first_other_position();
            if k < self.messages.len() {
                let removed = self.messages.remove(k);
                self.token_used = if self.token_used >= removed.token_estimate {
                    self.token_used - removed.token_estimate
                } else {
                    0
                };
            } else {
                return;
            }
        }
    }

    fn first_other_position(&self) -> (r: usize)
        ensures
            r == first_other(self.messages@),
            r <= self.messages@.len(),
    {
        let mut k: usize = 0;
        while k < self.messages.len()
            invariant
                k <= self.messages@.len(),
                forall|j: int|
                    0 <= j < k ==> (#[trigger] self.messages@[j]).role == MessageRole::System,
            decreases self.messages@.len() - k,
        {
            match self.messages[k].role {
                MessageRole::System => {},
                _ => {
                    proof {
                        lemma_first_other_is(self.messages@, k as int);
                    }
                    return k;
                },
            }
            k = k + 1;
        }
        proof {
            lemma_first_other_is(self.messages@, k as int);
        }
        k
    }

    fn recalculate_tokens(&mut self)
        requires
            total(old(self).messages@) <= u32::MAX,
        ensures
            final(self).messages@ == old(self).messages@,
            final(self).token_used == total(old(self).messages@),
            final(self).token_budget == old(self).token_budget,
            final(self).truncation_strategy == old(self).truncation_strategy,
    {
        let ghost all = self.messages@;
        let mut sum: u32 = 0;
        let mut i: usize = 0;
        assert(all.take(0) =~= Seq::empty());
        while i < self.messages.len()
            invariant
                i <= self.messages@.len(),
                all == self.messages@,
                total(all) <= u32::MAX,
                sum == total(all.take(i as int)),
            decreases self.messages@.len() - i,
        {
            proof {
                assert(all.take(i + 1).drop_last() =~= all.take(i as int));
                lemma_total_take(all, i + 1, all.len() as int);
                assert(all.take(all.len() as int) =~= all);
            }
            sum = sum + self.messages[i].token_estimate;
            i = i + 1;
        }
        assert(all.take(i as int) =~= all);
        self.token_used = sum;
    }

    /// The conversation as the model gets it.
    pub fn to_rig_messages(&self) -> (r: Vec<PromptMessage>)
        ensures
            prompt_views(r@) == prompts(self.messages@),
    {
        let mut out: Vec<PromptMessage> = Vec::new();
        let mut i: usize = 0;
        proof {
            assert(self.messages@.take(0) =~= Seq::empty());
            assert(prompt_views(out@) =~= Seq::empty());
        }
        while i < self.messages.len()
            invariant
                i <= self.messages@.len(),
                prompt_views(out@) == prompts(self.messages@.take(i as int)),
            decreases self.messages@.len() - i,
        {
            proof {
                assert(self.messages@.take(i + 1).drop_last() =~= self.messages@.take(i as int));
                assert(self.messages@.take(i + 1).last() == self.messages@[i as int]);
            }
            put_prompts_of(&mut out, &self.messages[i]);
            i = i + 1;
        }
        assert(self.messages@.take(i as int) =~= self.messages@);
        out
    }

    /// Extract the system prompt from messages (first system message).
    pub fn system_prompt(&self) -> (r: Option<String>)
        ensures
            crate::text::opt_view(r) == first_system_text(self.messages@),
    {
        let mut i: usize = 0;
        assert(self.messages@.skip(0) =~= self.messages@);
        while i < self.messages.len()
            invariant
                i <= self.messages@.len(),
                first_system_text(self.messages@) == first_system_text(
                    self.messages@.skip(i as int),
                ),
            decreases self.messages@.len() - i,
        {
            proof {
                assert(self.messages@.skip(i as int)[0] == self.messages@[i as int]);
                assert(self.messages@.skip(i as int).drop_first() =~= self.messages@.skip(i + 1));
            }
            match (&self.messages[i].role, &self.messages[i].content) {
                (MessageRole::System, MessageContent::Text(text)) => {
                    return Some(text.clone());
                },
                _ => {},
            }
            i = i + 1;
        }
        None
    }
}

// ---- what truncation keeps ---------------------------------------------------------------

proof fn lemma_filter_remove(messages: Seq<ChatMessage>, k: int)
    requires
        0 <= k < messages.len(),
        messages[k].role != MessageRole::System,
    ensures
        messages.remove(k).filter(of_system()) == messages.filter(of_system()),
    decreases messages.len(),
{
    reveal(Seq::filter);
    let init = messages.drop_last();
    if k == messages.len() - 1 {
        assert(messages.remove(k) =~= init);
    } else {
        lemma_filter_remove(init, k);
        assert(messages.remove(k).drop_last() =~= init.remove(k));
        assert(messages.remove(k).last() == messages.last());
    }
}

proof fn lemma_fitted_keeps_system(messages: Seq<ChatMessage>, used: int, budget: int)
    ensures
        fitted(messages, used, budget).0.filter(of_system()) == messages.filter(of_system()),
    decreases messages.len(),
{
    let k = first_other(messages);
    lemma_first_other(messages);
    if used > budget && messages.len() > 1 && k < messages.len() {
        let dropped = messages[k].token_estimate;
        lemma_filter_remove(messages, k);
        lemma_fitted_keeps_system(
            messages.remove(k),
            if used >= dropped {
                used - dropped
            } else {
                0
            },
            budget,
        );
    }
}

proof fn lemma_filter_all(messages: Seq<ChatMessage>, p: spec_fn(ChatMessage) -> bool)
    requires
        forall|i: int| 0 <= i < messages.len() ==> p(#[trigger] messages[i]),
    ensures
        messages.filter(p) == messages,
    decreases messages.len(),
{
    reveal(Seq::filter);
    if messages.len() > 0 {
        lemma_filter_all(messages.drop_last(), p);
        assert(p(messages[messages.len() - 1]));
        assert(messages.drop_last().push(messages.last()) =~= messages);
    }
}

proof fn lemma_filter_empty(messages: Seq<ChatMessage>, p: spec_fn(ChatMessage) -> bool)
    requires
        forall|i: int| 0 <= i < messages.len() ==> !p(#[trigger] messages[i]),
    ensures
        messages.filter(p) == Seq::<ChatMessage>::empty(),
    decreases messages.len(),
{
    reveal(Seq::filter);
    if messages.len() > 0 {
        lemma_filter_empty(messages.drop_last(), p);
        assert(!p(messages[messages.len() - 1]));
    } else {
        assert(messages =~= Seq::empty());
    }
}

proof fn lemma_filtered(messages: Seq<ChatMessage>, p: spec_fn(ChatMessage) -> bool)
    ensures
        forall|i: int| 0 <= i < messages.filter(p).len() ==> p(#[trigger] messages.filter(p)[i]),
    decreases messages.len(),
{
    reveal(Seq::filter);
    if messages.len() > 0 {
        lemma_filtered(messages.drop_last(), p);
    }
}

proof fn lemma_filter_add(
    a: Seq<ChatMessage>,
    b: Seq<ChatMessage>,
    p: spec_fn(ChatMessage) -> bool,
)
    ensures
        (a + b).filter(p) == a.filter(p) + b.filter(p),
    decreases b.len(),
{
    reveal(Seq::filter);
    if b.len() == 0 {
        assert(a + b =~= a);
        assert(a.filter(p) + b.filter(p) =~= a.filter(p));
    } else {
        assert((a + b).drop_last() =~= a + b.drop_last());
        lemma_filter_add(a, b.drop_last(), p);
        assert((a + b).filter(p) =~= a.filter(p) + b.filter(p));
    }
}

/// Truncation drops nothing that the system said, and keeps its order.
pub proof fn truncation_keeps_the_system(c: ConversationContext)
    ensures
        c.truncated().0.filter(of_system()) == c.messages@.filter(of_system()),
{
    if c.token_used > c.token_budget {
        match c.truncation_strategy {
            TruncationStrategy::SlidingWindow { keep_last } => {
                let all = c.messages@;
                let system = all.filter(of_system());
                let others = all.filter(of_others());
                let kept = last_of(others, keep_last as nat);
                lemma_filtered(all, of_system());
                lemma_filtered(all, of_others());
                lemma_filter_all(system, of_system());
                assert forall|i: int| 0 <= i < kept.len() implies !of_system()(
                    #[trigger] kept[i],
                ) by {
                    let k = if keep_last < others.len() {
                        i + others.len() - keep_last
                    } else {
                        i
                    };
                    assert(of_others()(others[k]));
                }
                lemma_filter_empty(kept, of_system());
                lemma_filter_add(system, kept, of_system());
                assert(system + Seq::<ChatMessage>::empty() =~= system);
            },
            _ => {
                lemma_fitted_keeps_system(
                    c.messages@,
                    c.token_used as int,
                    c.token_budget as int,
                );
            },
        }
    }
}

/// A sliding window leaves at most as many other messages as it is wide.
pub proof fn windows_are_bounded(messages: Seq<ChatMessage>, n: nat)
    ensures
        windowed(messages, n).filter(of_others()).len() <= n,
{
    let system = messages.filter(of_system());
    let others = messages.filter(of_others());
    let kept = last_of(others, n);
    lemma_filtered(messages, of_system());
    lemma_filtered(messages, of_others());
    assert forall|i: int| 0 <= i < system.len() implies !of_others()(#[trigger] system[i]) by {
        assert(of_system()(system[i]));
    }
    lemma_filter_empty(system, of_others());
    assert forall|i: int| 0 <= i < kept.len() implies of_others()(#[trigger] kept[i]) by {
        let k = if n < others.len() {
            i + others.len() - n
        } else {
            i
        };
        assert(of_others()(others[k]));
    }
    lemma_filter_all(kept, of_others());
    lemma_filter_add(system, kept, of_others());
    assert(Seq::<ChatMessage>::empty() + kept =~= kept);
}

proof fn lemma_total_remove(messages: Seq<ChatMessage>, k: int)
    requires
        0 <= k < messages.len(),
    ensures
        total(messages.remove(k)) + messages[k].token_estimate == total(messages),
    decreases messages.len(),
{
    let init = messages.drop_last();
    if k == messages.len() - 1 {
        assert(messages.remove(k) =~= init);
    } else {
        lemma_total_remove(init, k);
        assert(messages.remove(k).drop_last() =~= init.remove(k));
    }
}

proof fn lemma_fitted_counts(messages: Seq<ChatMessage>, used: int, budget: int)
    requires
        used == total(messages),
    ensures
        fitted(messages, used, budget).1 == total(fitted(messages, used, budget).0),
        fitted(messages, used, budget).1 <= used,
        fitted(messages, used, budget).1 <= budget || fitted(messages, used, budget).0.len() <= 1
            || first_other(fitted(messages, used, budget).0) == fitted(
            messages,
            used,
            budget,
        ).0.len(),
    decreases messages.len(),
{
    let k = first_other(messages);
    lemma_first_other(messages);
    if used > budget && messages.len() > 1 && k < messages.len() {
        lemma_total_remove(messages, k);
        lemma_fitted_counts(messages.remove(k), used - messages[k].token_estimate, budget);
    }
}

proof fn lemma_total_filters(messages: Seq<ChatMessage>)
    ensures
        total(messages.filter(of_system())) + total(messages.filter(of_others())) == total(
            messages,
        ),
    decreases messages.len(),
{
    reveal(Seq::filter);
    if messages.len() > 0 {
        let init = messages.drop_last();
        lemma_total_filters(init);
        let a = init.filter(of_system());
        let b = init.filter(of_others());
        assert(a.push(messages.last()).drop_last() =~= a);
        assert(b.push(messages.last()).drop_last() =~= b);
    }
}

/// Truncation keeps the count right and never makes it larger. Dropping old messages goes on
/// until the budget is met, or until only one message, or only the system's, are left.
pub proof fn truncation_keeps_the_count(c: ConversationContext)
    requires
        c.counted(),
    ensures
        c.truncated().1 == total(c.truncated().0),
        c.truncated().1 <= c.token_used,
        c.truncation_strategy is Strict ==> c.truncated().1 <= c.token_budget
            || c.truncated().0.len() <= 1 || first_other(c.truncated().0)
            == c.truncated().0.len(),
{
    if c.token_used > c.token_budget {
        match c.truncation_strategy {
            TruncationStrategy::SlidingWindow { keep_last } => {
                let system = c.messages@.filter(of_system());
                let others = c.messages@.filter(of_others());
                let kept = last_of(others, keep_last as nat);
                lemma_total_filters(c.messages@);
                lemma_total_add(system, kept);
                if keep_last < others.len() {
                    let n = others.len() - keep_last;
                    lemma_total_add(others.take(n), kept);
                    assert(others.take(n) + kept =~= others);
                }
            },
            _ => {
                lemma_fitted_counts(c.messages@, c.token_used as int, c.token_budget as int);
            },
        }
    }
}

/// Messages add to what a conversation takes, each what it takes itself.
pub proof fn counts_add_up(messages: Seq<ChatMessage>, m: ChatMessage)
    ensures
        total(Seq::<ChatMessage>::empty()) == 0,
        total(messages.push(m)) == total(messages) + m.token_estimate,
        total(seq![m] + messages) == m.token_estimate + total(messages),
{
    assert(messages.push(m).drop_last() =~= messages);
    lemma_total_add(seq![m], messages);
    assert(seq![m].drop_last() =~= Seq::empty());
    assert(total(seq![m]) == total(seq![m].drop_last()) + m.token_estimate);
}

/// A conversation within its budget stays as it is.
pub proof fn what_fits_stays(c: ConversationContext)
    requires
        c.token_used <= c.token_budget,
    ensures
        c.truncated().0 == c.messages@,
        c.truncated().1 == c.token_used,
{
}

/// A sliding window shows all that the system said, in order, and behind it the latest of all else:
/// as many as the window is wide, or all of them. So of the rest each message that is gone stood
/// before each that is left, and the last message stays the last.
pub proof fn windows_show_the_latest(c: ConversationContext, keep: usize)
    requires
        c.token_used > c.token_budget,
        c.truncation_strategy == (TruncationStrategy::SlidingWindow { keep_last: keep }),
    ensures
        ({
            let system = c.messages@.filter(|m: ChatMessage| m.role == MessageRole::System);
            let before = c.messages@.filter(|m: ChatMessage| m.role != MessageRole::System);
            let gone = if before.len() > keep {
                before.len() - keep
            } else {
                0
            };
            &&& c.truncated().0 == system + before.skip(gone)
            &&& keep > 0 && before.len() > 0 ==> c.truncated().0.len() > 0
                && c.truncated().0.last() == before.last()
        }),
{
    let p = |m: ChatMessage| m.role == MessageRole::System;
    let q = |m: ChatMessage| m.role != MessageRole::System;
    assert(p =~= of_system());
    assert(q =~= of_others());
    let before = c.messages@.filter(q);
    assert(before.skip(0) =~= before);
}

/// Where a conversation must fit its budget, the oldest messages that are not of the system go:
/// up to some place only what the system said is left, and from there on everything is.
pub proof fn the_oldest_go_first(c: ConversationContext)
    requires
        c.truncation_strategy is Strict,
    ensures
        exists|place: int|
            0 <= place <= c.messages@.len() && c.truncated().0 == c.messages@.take(place).filter(
                |m: ChatMessage| m.role == MessageRole::System,
            ) + #[trigger] c.messages@.skip(place),
{
    let p = |m: ChatMessage| m.role == MessageRole::System;
    assert(p =~= of_system());
    let place = if c.token_used > c.token_budget {
        lemma_fitted_place(c.messages@, c.token_used as int, c.token_budget as int)
    } else {
        lemma_filter_none(c.messages@, p);
        assert(c.messages@.take(0).filter(p) + c.messages@.skip(0) =~= c.messages@);
        0
    };
    assert(c.truncated().0 == c.messages@.take(place).filter(p) + c.messages@.skip(place));
}

proof fn lemma_fitted_place(messages: Seq<ChatMessage>, used: int, budget: int) -> (place: int)
    ensures
        0 <= place <= messages.len(),
        fitted(messages, used, budget).0 == messages.take(place).filter(of_system())
            + messages.skip(place),
    decreases messages.len(),
{
    let k = first_other(messages);
    lemma_first_other(messages);
    if used > budget && messages.len() > 1 && k < messages.len() {
        let rest = messages.remove(k);
        let dropped = messages[k].token_estimate;
        let q = lemma_fitted_place(
            rest,
            if used >= dropped {
                used - dropped
            } else {
                0
            },
            budget,
        );
        if q >= k {
            assert(rest.take(q) =~= messages.take(q + 1).remove(k));
            lemma_filter_remove(messages.take(q + 1), k);
            assert(rest.skip(q) =~= messages.skip(q + 1));
            q + 1
        } else {
            lemma_filter_all(rest.take(q), of_system());
            assert(rest.take(q) + rest.skip(q) =~= rest);
            let front = messages.take(k + 1);
            lemma_filter_remove(front, k);
            assert(front.remove(k) =~= messages.take(k));
            lemma_filter_all(messages.take(k), of_system());
            assert(rest =~= messages.take(k) + messages.skip(k + 1));
            k + 1
        }
    } else {
        lemma_filter_none(messages, of_system());
        assert(messages.take(0).filter(of_system()) + messages.skip(0) =~= messages);
        0
    }
}

/// No more is dropped than has to be: either nothing is, or what is left would not fit with the
/// last message that was dropped. And what is left fits, unless nothing but one message or what the
/// system said is left.
pub proof fn no_more_is_dropped_than_needed(c: ConversationContext)
    requires
        c.counted(),
        c.truncation_strategy is Strict,
    ensures
        c.truncated().0 == c.messages@ || exists|i: int|
            0 <= i < c.messages@.len() && (#[trigger] c.messages@[i]).role != MessageRole::System
                && total(c.truncated().0) + c.messages@[i].token_estimate > c.token_budget,
        total(c.truncated().0) <= c.token_budget || c.truncated().0.len() <= 1 || forall|i: int|
            0 <= i < c.truncated().0.len() ==> (#[trigger] c.truncated().0[i]).role
                == MessageRole::System,
{
    truncation_keeps_the_count(c);
    lemma_first_other(c.truncated().0);
    if c.token_used > c.token_budget {
        lemma_fitted_needed(c.messages@, c.token_used as int, c.token_budget as int);
    }
}

proof fn lemma_fitted_needed(messages: Seq<ChatMessage>, used: int, budget: int)
    requires
        used == total(messages),
    ensures
        fitted(messages, used, budget).0 == messages || exists|i: int|
            0 <= i < messages.len() && (#[trigger] messages[i]).role != MessageRole::System
                && total(fitted(messages, used, budget).0) + messages[i].token_estimate > budget,
    decreases messages.len(),
{
    let k = first_other(messages);
    lemma_first_other(messages);
    if used > budget && messages.len() > 1 && k < messages.len() {
        let rest = messages.remove(k);
        lemma_total_remove(messages, k);
        let less = used - messages[k].token_estimate;
        lemma_fitted_needed(rest, less, budget);
        if fitted(rest, less, budget).0 == rest {
            assert(messages[k].role != MessageRole::System);
        } else {
            let i = choose|i: int|
                0 <= i < rest.len() && (#[trigger] rest[i]).role != MessageRole::System && total(
                    fitted(rest, less, budget).0,
                ) + rest[i].token_estimate > budget;
            let j = if i < k {
                i
            } else {
                i + 1
            };
            assert(messages[j] == rest[i]);
        }
    }
}

/// A conversation that may be summed up goes the way of one that must fit once it is over the
/// threshold, and stays as it is below that.
pub proof fn summaries_wait_for_the_threshold(
    c: ConversationContext,
    threshold: u32,
)
    requires
        c.truncation_strategy matches TruncationStrategy::Summarize {
            summarizer_model: _,
            threshold_tokens: t,
        } && t == threshold,
    ensures
        c.token_used <= threshold ==> c.truncated() == (c.messages@, c.token_used as int),
        c.token_used > threshold ==> c.truncated() == (ConversationContext {
            truncation_strategy: TruncationStrategy::Strict,
            ..c
        }).truncated(),
{
}

/// What the model gets of a message comes behind what it gets of those before: the words of the user
/// and its own as such, the calls that it asked for, and for each call what the tool gave back. What
/// the system said is not repeated.
pub proof fn the_model_gets_what_was_said(before: Seq<ChatMessage>, m: ChatMessage)
    ensures
        m.role == MessageRole::System ==> prompts(before.push(m)) == prompts(before),
        m.content matches MessageContent::Text(text) ==> {
            &&& m.role == MessageRole::User ==> prompts(before.push(m)) == prompts(before).push(
                PromptView::User(text@),
            )
            &&& m.role == MessageRole::Assistant ==> prompts(before.push(m)) == prompts(
                before,
            ).push(PromptView::Assistant(text@))
        },
        m.content matches MessageContent::ToolCalls(calls) ==> {
            &&& m.role == MessageRole::Assistant && calls@.len() > 0 ==> prompts(before.push(m))
                == prompts(before).push(PromptView::ToolCalls(call_views(calls@)))
            &&& m.role == MessageRole::Assistant && calls@.len() == 0 ==> prompts(before.push(m))
                == prompts(before)
        },
        m.content matches MessageContent::ToolResult(result) ==> m.role == MessageRole::Tool ==> {
            let got = prompts(before.push(m));
            &&& got.len() == prompts(before).len() + 1
            &&& got.drop_last() == prompts(before)
            &&& got.last() matches PromptView::ToolResult { call_id, text }
            &&& call_id == result.call_id@
            &&& match result.output {
                ToolOutput::Success(value) => text == compact_text(value@),
                ToolOutput::Error(error) => text == "Error: "@ + error@,
            }
        },
        prompts(Seq::<ChatMessage>::empty()) == Seq::<PromptView>::empty(),
{
    let all = before.push(m);
    assert(all.drop_last() =~= before);
    assert(all.last() == m);
    assert(prompts(before) + Seq::<PromptView>::empty() =~= prompts(before));
    let of_it = prompts_of(m);
    if of_it.len() == 1 {
        assert(prompts(before) + of_it =~= prompts(before).push(of_it[0]));
        assert(prompts(before).push(of_it[0]).drop_last() =~= prompts(before));
    }
}

/// The prompt of the system is the first text that the system said.
pub proof fn the_prompt_is_the_first_text(messages: Seq<ChatMessage>, i: int, text: String)
    requires
        0 <= i < messages.len(),
        messages[i].role == MessageRole::System,
        messages[i].content == MessageContent::Text(text),
        forall|j: int|
            0 <= j < i ==> (#[trigger] messages[j]).role != MessageRole::System || !(
            messages[j].content is Text),
    ensures
        first_system_text(messages) == Some(text@),
    decreases i,
{
    if i > 0 {
        let rest = messages.drop_first();
        assert(messages[0].role != MessageRole::System || !(messages[0].content is Text));
        assert forall|j: int| 0 <= j < i - 1 implies (#[trigger] rest[j]).role
            != MessageRole::System || !(rest[j].content is Text) by {
            assert(rest[j] == messages[j + 1]);
        }
        the_prompt_is_the_first_text(rest, i - 1, text);
    }
}

/// Of a message of several parts the model gets each text, in order, as said by the user, and nothing
/// of the other parts.
pub proof fn the_model_gets_each_text(
    before: Seq<ChatMessage>,
    shorter: ChatMessage,
    longer: ChatMessage,
    parts: Vec<ContentPart>,
    more: Vec<ContentPart>,
    part: ContentPart,
)
    requires
        shorter.role == longer.role,
        shorter.role != MessageRole::System,
        shorter.content == MessageContent::Mixed(parts),
        longer.content == MessageContent::Mixed(more),
        more@ == parts@.push(part),
    ensures
        part matches ContentPart::Text(text) ==> prompts(before.push(longer)) == prompts(
            before.push(shorter),
        ).push(PromptView::User(text@)),
        !(part is Text) ==> prompts(before.push(longer)) == prompts(before.push(shorter)),
        parts@.len() == 0 ==> prompts(before.push(shorter)) == prompts(before),
{
    assert(before.push(longer).drop_last() =~= before);
    assert(before.push(shorter).drop_last() =~= before);
    assert(more@.drop_last() =~= parts@);
    assert(more@.last() == part);
    match part {
        ContentPart::Text(text) => {
            assert(prompts(before) + part_prompts(parts@).push(PromptView::User(text@)) =~= (prompts(
                before,
            ) + part_prompts(parts@)).push(PromptView::User(text@)));
        },
        _ => {},
    }
    if parts@.len() == 0 {
        assert(prompts(before) + part_prompts(parts@) =~= prompts(before));
    }
}

/// Where the system said nothing in words, there is no prompt of the system.
pub proof fn no_text_no_prompt(messages: Seq<ChatMessage>)
    requires
        forall|j: int|
            0 <= j < messages.len() ==> (#[trigger] messages[j]).role != MessageRole::System || !(
            messages[j].content is Text),
    ensures
        first_system_text(messages) is None,
    decreases messages.len(),
{
    if messages.len() > 0 {
        let rest = messages.drop_first();
        assert(messages[0].role != MessageRole::System || !(messages[0].content is Text));
        assert forall|j: int| 0 <= j < rest.len() implies (#[trigger] rest[j]).role
            != MessageRole::System || !(rest[j].content is Text) by {
            assert(rest[j] == messages[j + 1]);
        }
        no_text_no_prompt(rest);
    }
}

/// Each message that a window drops stood before each that it keeps of those that are not the
/// system's, and what it keeps of them is the end of what there was.
pub proof fn windows_drop_what_came_first(c: ConversationContext, keep: usize)
    requires
        c.token_used > c.token_budget,
        c.truncation_strategy == (TruncationStrategy::SlidingWindow { keep_last: keep }),
    ensures
        ({
            let before = c.messages@.filter(|m: ChatMessage| m.role != MessageRole::System);
            let system = c.messages@.filter(|m: ChatMessage| m.role == MessageRole::System);
            let kept = c.truncated().0.skip(system.len() as int);
            &&& kept.len() <= keep
            &&& kept.len() <= before.len()
            &&& before.len() <= keep ==> kept == before
            &&& forall|i: int|
                0 <= i < kept.len() ==> (#[trigger] kept[i]) == before[before.len() - kept.len() + i]
        }),
{
    windows_show_the_latest(c, keep);
    let before = c.messages@.filter(|m: ChatMessage| m.role != MessageRole::System);
    let system = c.messages@.filter(|m: ChatMessage| m.role == MessageRole::System);
    let gone = if before.len() > keep {
        before.len() - keep
    } else {
        0
    };
    let kept = c.truncated().0.skip(system.len() as int);
    assert(kept =~= before.skip(gone));
    if before.len() <= keep {
        assert(before.skip(0) =~= before);
    }
}

} // verus!

//! Threads: messages of a conversation, where they belong and what becomes of old ones.

use vstd::prelude::*;
use crate::json::{compact, compact_text};
use crate::text::{byte_len, bytes_in, copy_opt};
use crate::time::{id_text, id_to_text, new_id, now, Timestamp};
use crate::tool::{
    call_views, copy_calls, CallView, ResultView, ToolCall, ToolOutput, ToolResult,
};

verus! {

pub type ThreadId = String;

pub type MessageId = u128;

pub type ConversationId = u128;

/// Role of a message in the conversation context.
#[derive(Debug, Clone, Copy, PartialEq, Eq, Structural)]
pub enum MessageRole {
    System,
    User,
    Assistant,
    Tool,
}

/// Content of a chat message.
#[derive(Debug, Clone)]
pub enum MessageContent {
    Text(String),
    ToolCalls(Vec<ToolCall>),
    ToolResult(ToolResult),
    Mixed(Vec<ContentPart>),
}

/// A single content part within a Mixed message.
#[derive(Debug, Clone)]
pub enum ContentPart {
    Text(String),
    ToolCall(ToolCall),
    ToolResult(ToolResult),
}

/// Metadata attached to a chat message.
#[derive(Debug, Clone)]
pub struct MessageMetadata {
    pub source: Option<String>,
    pub parent_message_id: Option<u64>,
    pub redacted: bool,
    pub collaboration_call_id: Option<MessageId>,
    pub collaboration_result_id: Option<MessageId>,
}

/// A single message in the conversation context.
#[derive(Debug, Clone)]
pub struct ChatMessage {
    pub id: MessageId,
    pub role: MessageRole,
    pub content: MessageContent,
    pub timestamp: Timestamp,
    pub token_estimate: u32,
    pub metadata: MessageMetadata,
}

/// Strategy for truncating conversation when token budget is exceeded.
#[derive(Debug, Clone)]
pub enum TruncationStrategy {
    /// Keep the last N messages, always preserving the system prompt.
    SlidingWindow { keep_last: usize },
    /// Summarize older messages when token_used exceeds the threshold, a part of the budget.
    Summarize {
        summarizer_model: String,
        threshold_tokens: u32,
    },
    /// Hard truncation: drop oldest non-system messages when budget exceeded.
    Strict,
}

/// Status of a thread.
#[derive(Debug, Clone, Copy, PartialEq, Eq, Structural)]
pub enum ThreadStatus {
    Active,
    Completed,
    Failed,
    Suspended,
}

/// Scope of a thread, determining its lifecycle and ownership.
#[derive(Debug)]
pub enum ThreadScope {
    System0,
    Task {
        task_id: String,
    },
    UserConversation {
        conversation_id: ConversationId,
    },
    Collaboration {
        parent_thread_id: ThreadId,
        root_scope: Box<ThreadScope>,
    },
}

/// Compaction policy for a thread.
#[derive(Debug, Clone)]
pub enum CompactionPolicy {
    SummarizeToMemory {
        target_partition: String,
        summarizer_model: String,
        threshold_tokens: u32,
    },
    InPlace {
        strategy: TruncationStrategy,
    },
    Off,
}

/// A persistent thread record.
#[derive(Debug, Clone)]
pub struct AgentThread {
    pub id: ThreadId,
    pub agent_id: String,
    pub scope: ThreadScope,
    pub compaction_policy: CompactionPolicy,
    pub context_window_budget: u32,
    pub status: ThreadStatus,
    pub created_at: Timestamp,
    pub updated_at: Timestamp,
}

/// A cross-reference from one thread's message to another.
#[derive(Debug, Clone)]
pub struct CrossReference {
    pub thread_id: ThreadId,
    pub message_id: MessageId,
    pub role: String,
    pub content_preview: String,
}

impl Default for MessageMetadata {
    /// Nothing is known of the message.
    fn default() -> (r: MessageMetadata)
        ensures
            r == plain_metadata(),
    {
        MessageMetadata {
            source: None,
            parent_message_id: None,
            redacted: false,
            collaboration_call_id: None,
            collaboration_result_id: None,
        }
    }
}

/// Nothing is known of a message.
pub open spec fn plain_metadata() -> MessageMetadata {
    MessageMetadata {
        source: None,
        parent_message_id: None,
        redacted: false,
        collaboration_call_id: None,
        collaboration_result_id: None,
    }
}

/// About how many tokens a text takes: one for each four of its bytes, and at least one. Only the
/// low 32 bits of its length count.
pub open spec fn tokens_in(text: Seq<char>) -> nat {
    let n = byte_len(text) % 0x1_0000_0000 / 4;
    if n < 1 {
        1
    } else {
        n
    }
}

/// Simple token estimate: ~4 chars per token.
pub fn estimate_tokens(text: &str) -> (r: u32)
    ensures
        r == tokens_in(text@),
        1 <= r <= 0x4000_0000,
{
    let n: u64 = (bytes_in(text) as u64) % 0x1_0000_0000 / 4;
    if n < 1 {
        1
    } else {
        n as u32
    }
}

impl ChatMessage {
    /// The message says a text and nothing else is known of it.
    pub open spec fn is_text(self, role: MessageRole, text: Seq<char>) -> bool {
        &&& self.role == role
        &&& self.content matches MessageContent::Text(t)
        &&& t@ == text
        &&& self.token_estimate == tokens_in(text)
        &&& self.metadata == plain_metadata()
    }

    /// The message asks for tools to be called.
    pub open spec fn is_tool_calls(self, calls: Vec<ToolCall>) -> bool {
        &&& self.role == MessageRole::Assistant
        &&& self.content == MessageContent::ToolCalls(calls)
        &&& self.token_estimate == calls@.len() * 50
        &&& self.metadata == plain_metadata()
    }

    /// The message brings what a tool gave back.
    pub open spec fn is_tool_result(self, result: ToolResult) -> bool {
        &&& self.role == MessageRole::Tool
        &&& self.content == MessageContent::ToolResult(result)
        &&& self.token_estimate == result_tokens(result)
        &&& self.metadata.source matches Some(source)
        &&& source@ == "tool"@
        &&& self.metadata == (MessageMetadata { source: Some(source), ..plain_metadata() })
    }

    fn of_text(role: MessageRole, text: String) -> (r: ChatMessage)
        ensures
            r.is_text(role, text@),
    {
        let token_estimate = estimate_tokens(text.as_str());
        ChatMessage {
            id: new_id(),
            role,
            content: MessageContent::Text(text),
            timestamp: now(),
            token_estimate,
            metadata: MessageMetadata::default(),
        }
    }

    pub fn system(text: &str) -> (r: ChatMessage)
        ensures
            r.is_text(MessageRole::System, text@),
    {
        Self::of_text(MessageRole::System, text.to_owned())
    }

    pub fn user(text: &str) -> (r: ChatMessage)
        ensures
            r.is_text(MessageRole::User, text@),
    {
        Self::of_text(MessageRole::User, text.to_owned())
    }

    pub fn assistant_text(text: &str) -> (r: ChatMessage)
        ensures
            r.is_text(MessageRole::Assistant, text@),
    {
        Self::of_text(MessageRole::Assistant, text.to_owned())
    }

    pub fn assistant_tool_calls(calls: Vec<ToolCall>) -> (r: ChatMessage)
        requires
            calls@.len() * 50 <= u32::MAX,
        ensures
            r.is_tool_calls(calls),
    {
        let token_estimate: u32 = calls.len() as u32 * 50;
        ChatMessage {
            id: new_id(),
            role: MessageRole::Assistant,
            content: MessageContent::ToolCalls(calls),
            timestamp: now(),
            token_estimate,
            metadata: MessageMetadata::default(),
        }
    }

    pub fn tool_result(result: ToolResult) -> (r: ChatMessage)
        ensures
            r.is_tool_result(result),
    {
        let token_estimate = match &result.output {
            ToolOutput::Success(value) => estimate_tokens(compact(value).as_str()),
            ToolOutput::Error(error) => estimate_tokens(error.as_str()),
        };
        ChatMessage {
            id: new_id(),
            role: MessageRole::Tool,
            content: MessageContent::ToolResult(result),
            timestamp: now(),
            token_estimate,
            metadata: MessageMetadata {
                source: Some("tool".to_owned()),
                parent_message_id: None,
                redacted: false,
                collaboration_call_id: None,
                collaboration_result_id: None,
            },
        }
    }

    pub fn with_source(self, source: &str) -> (r: ChatMessage)
        ensures
            r.metadata.source matches Some(s) && s@ == source@ && r == (ChatMessage {
                metadata: MessageMetadata { source: Some(s), ..self.metadata },
                ..self
            }),
    {
        let mut it = self;
        it.metadata.source = Some(source.to_owned());
        it
    }
}

/// About how many tokens what a tool gave back takes.
pub open spec fn result_tokens(result: ToolResult) -> nat {
    match result.output {
        ToolOutput::Success(value) => tokens_in(compact_text(value@)),
        ToolOutput::Error(error) => tokens_in(error@),
    }
}

impl Default for TruncationStrategy {
    /// The last fifty messages stay.
    fn default() -> (r: TruncationStrategy)
        ensures
            r == (TruncationStrategy::SlidingWindow { keep_last: 50 }),
    {
        TruncationStrategy::SlidingWindow { keep_last: 50 }
    }
}

impl ThreadStatus {
    /// The word for a status.
    pub open spec fn word(self) -> Seq<char> {
        match self {
            ThreadStatus::Active => "active"@,
            ThreadStatus::Completed => "completed"@,
            ThreadStatus::Failed => "failed"@,
            ThreadStatus::Suspended => "suspended"@,
        }
    }

    /// The word for a status.
    pub fn as_str(self) -> (r: &'static str)
        ensures
            r@ == self.word(),
    {
        match self {
            ThreadStatus::Active => "active",
            ThreadStatus::Completed => "completed",
            ThreadStatus::Failed => "failed",
            ThreadStatus::Suspended => "suspended",
        }
    }
}

impl Clone for ThreadScope {
    fn clone(&self) -> (r: ThreadScope)
        ensures
            r == *self,
    {
        self.copy()
    }
}

impl ThreadScope {
    /// A copy of the scope.
    pub fn copy(&self) -> (r: ThreadScope)
        ensures
            r == *self,
        decreases self,
    {
        match self {
            ThreadScope::System0 => ThreadScope::System0,
            ThreadScope::Task { task_id } => ThreadScope::Task { task_id: task_id.clone() },
            ThreadScope::UserConversation { conversation_id } => ThreadScope::UserConversation {
                conversation_id: *conversation_id,
            },
            ThreadScope::Collaboration { parent_thread_id, root_scope } =>
                ThreadScope::Collaboration {
                    parent_thread_id: parent_thread_id.clone(),
                    root_scope: Box::new((**root_scope).copy()),
                },
        }
    }

    /// The word for a kind of scope.
    pub open spec fn type_word(self) -> Seq<char> {
        match self {
            ThreadScope::System0 => "system0"@,
            ThreadScope::Task { .. } => "task"@,
            ThreadScope::UserConversation { .. } => "user_conversation"@,
            ThreadScope::Collaboration { .. } => "collaboration"@,
        }
    }

    /// Return the scope type label for DB storage.
    pub fn scope_type(&self) -> (r: &'static str)
        ensures
            r@ == self.type_word(),
    {
        match self {
            ThreadScope::System0 => "system0",
            ThreadScope::Task { .. } => "task",
            ThreadScope::UserConversation { .. } => "user_conversation",
            ThreadScope::Collaboration { .. } => "collaboration",
        }
    }

    /// What a scope refers to.
    pub open spec fn refers_to(self) -> Option<Seq<char>> {
        match self {
            ThreadScope::System0 => None,
            ThreadScope::Task { task_id } => Some(task_id@),
            ThreadScope::UserConversation { conversation_id } => Some(id_text(conversation_id)),
            ThreadScope::Collaboration { parent_thread_id, root_scope } => Some(parent_thread_id@),
        }
    }

    /// Return the primary scope reference (e.g. task_id or parent_thread_id).
    pub fn scope_ref(&self) -> (r: Option<String>)
        ensures
            crate::text::opt_view(r) == self.refers_to(),
    {
        match self {
            ThreadScope::System0 => None,
            ThreadScope::Task { task_id } => Some(task_id.clone()),
            ThreadScope::UserConversation { conversation_id } => Some(
                id_to_text(*conversation_id),
            ),
            ThreadScope::Collaboration { parent_thread_id, root_scope } => Some(
                parent_thread_id.clone(),
            ),
        }
    }
}

// ---- copies ------------------------------------------------------------------------------

/// What a part of a message holds.
#[verifier::ext_equal]
pub enum PartView {
    Text(Seq<char>),
    ToolCall(CallView),
    ToolResult(ResultView),
}

impl View for ContentPart {
    type V = PartView;

    open spec fn view(&self) -> PartView {
        match self {
            ContentPart::Text(text) => PartView::Text(text@),
            ContentPart::ToolCall(call) => PartView::ToolCall(call@),
            ContentPart::ToolResult(result) => PartView::ToolResult(result@),
        }
    }
}

/// What the parts of a list hold.
pub open spec fn part_views(list: Seq<ContentPart>) -> Seq<PartView> {
    Seq::new(list.len(), |i: int| list[i]@)
}

/// What a message says.
#[verifier::ext_equal]
pub enum ContentView {
    Text(Seq<char>),
    ToolCalls(Seq<CallView>),
    ToolResult(ResultView),
    Mixed(Seq<PartView>),
}

impl View for MessageContent {
    type V = ContentView;

    open spec fn view(&self) -> ContentView {
        match self {
            MessageContent::Text(text) => ContentView::Text(text@),
            MessageContent::ToolCalls(calls) => ContentView::ToolCalls(call_views(calls@)),
            MessageContent::ToolResult(result) => ContentView::ToolResult(result@),
            MessageContent::Mixed(parts) => ContentView::Mixed(part_views(parts@)),
        }
    }
}

/// A message: who says what, when, and what it takes.
#[verifier::ext_equal]
pub struct MessageView {
    pub id: MessageId,
    pub role: MessageRole,
    pub content: ContentView,
    pub timestamp: Timestamp,
    pub token_estimate: u32,
    pub metadata: MessageMetadata,
}

impl View for ChatMessage {
    type V = MessageView;

    open spec fn view(&self) -> MessageView {
        MessageView {
            id: self.id,
            role: self.role,
            content: self.content@,
            timestamp: self.timestamp,
            token_estimate: self.token_estimate,
            metadata: self.metadata,
        }
    }
}

/// The messages of a list.
pub open spec fn message_views(list: Seq<ChatMessage>) -> Seq<MessageView> {
    Seq::new(list.len(), |i: int| list[i]@)
}

fn copy_parts(list: &Vec<ContentPart>) -> (r: Vec<ContentPart>)
    ensures
        part_views(r@) == part_views(list@),
{
    let mut r: Vec<ContentPart> = Vec::new();
    let mut i: usize = 0;
    while i < list.len()
        invariant
            i <= list@.len(),
            r@.len() == i,
            forall|k: int| 0 <= k < i ==> (#[trigger] r@[k])@ == list@[k]@,
        decreases list@.len() - i,
    {
        let part = match &list[i] {
            ContentPart::Text(text) => ContentPart::Text(text.clone()),
            ContentPart::ToolCall(call) => ContentPart::ToolCall(call.copy()),
            ContentPart::ToolResult(result) => ContentPart::ToolResult(result.copy()),
        };
        r.push(part);
        i = i + 1;
    }
    assert(part_views(r@) =~= part_views(list@));
    r
}

impl ChatMessage {
    /// A copy of the message.
    pub fn copy(&self) -> (r: ChatMessage)
        ensures
            r@ == self@,
    {
        let content = match &self.content {
            MessageContent::Text(text) => MessageContent::Text(text.clone()),
            MessageContent::ToolCalls(calls) => MessageContent::ToolCalls(copy_calls(calls)),
            MessageContent::ToolResult(result) => MessageContent::ToolResult(result.copy()),
            MessageContent::Mixed(parts) => MessageContent::Mixed(copy_parts(parts)),
        };
        ChatMessage {
            id: self.id,
            role: self.role,
            content,
            timestamp: self.timestamp,
            token_estimate: self.token_estimate,
            metadata: MessageMetadata {
                source: copy_opt(&self.metadata.source),
                parent_message_id: self.metadata.parent_message_id,
                redacted: self.metadata.redacted,
                collaboration_call_id: self.metadata.collaboration_call_id,
                collaboration_result_id: self.metadata.collaboration_result_id,
            },
        }
    }
}

/// Copies of the messages of a list.
pub fn copy_messages(list: &Vec<ChatMessage>) -> (r: Vec<ChatMessage>)
    ensures
        message_views(r@) == message_views(list@),
{
    let mut r: Vec<ChatMessage> = Vec::new();
    let mut i: usize = 0;
    while i < list.len()
        invariant
            i <= list@.len(),
            r@.len() == i,
            forall|k: int| 0 <= k < i ==> (#[trigger] r@[k])@ == list@[k]@,
        decreases list@.len() - i,
    {
        r.push(list[i].copy());
        i = i + 1;
    }
    assert(message_views(r@) =~= message_views(list@));
    r
}

impl TruncationStrategy {
    /// A copy of the strategy.
    pub fn copy(&self) -> (r: TruncationStrategy)
        ensures
            r == *self,
    {
        match self {
            TruncationStrategy::SlidingWindow { keep_last } => TruncationStrategy::SlidingWindow {
                keep_last: *keep_last,
            },
            TruncationStrategy::Summarize { summarizer_model, threshold_tokens } =>
                TruncationStrategy::Summarize {
                    summarizer_model: summarizer_model.clone(),
                    threshold_tokens: *threshold_tokens,
                },
            TruncationStrategy::Strict => TruncationStrategy::Strict,
        }
    }
}

/// A text is taken to have a token for each four bytes, and never none.
pub proof fn four_bytes_make_a_token(text: Seq<char>)
    ensures
        tokens_in(text) >= 1,
        byte_len(text) < 8 ==> tokens_in(text) == 1,
        4 <= byte_len(text) < 0x1_0000_0000 ==> 4 * tokens_in(text) <= byte_len(text) < 4 * tokens_in(
            text,
        ) + 4,
{
}

/// A result has the tokens of what it says: its error, or its value written out.
pub proof fn results_are_counted_by_what_they_say(result: ToolResult)
    ensures
        result.output matches ToolOutput::Success(value) ==> result_tokens(result) == tokens_in(
            compact_text(value@),
        ),
        result.output matches ToolOutput::Error(error) ==> result_tokens(result) == tokens_in(
            error@,
        ),
{
}

/// A message says who spoke and what was said, as it was said, and has nothing else on it.
pub proof fn messages_say_who_spoke(
    m: ChatMessage,
    role: MessageRole,
    text: Seq<char>,
    calls: Vec<ToolCall>,
    result: ToolResult,
)
    ensures
        m.is_text(role, text) ==> m.role == role && (m.content matches MessageContent::Text(t) && t@
            == text) && m.token_estimate == tokens_in(text) && m.metadata.source is None
            && m.metadata.parent_message_id is None && !m.metadata.redacted
            && m.metadata.collaboration_call_id is None
            && m.metadata.collaboration_result_id is None,
        m.is_tool_calls(calls) ==> m.role is Assistant && (
        m.content matches MessageContent::ToolCalls(c) && c == calls) && m.token_estimate == 50
            * calls@.len() && m.metadata.source is None && !m.metadata.redacted,
        m.is_tool_result(result) ==> m.role is Tool && (m.content matches MessageContent::ToolResult(
            r,
        ) && r == result) && m.token_estimate == result_tokens(result) && (
        m.metadata.source matches Some(s) && s@ == "tool"@) && !m.metadata.redacted,
{
}

/// The words for states and scopes of threads, and what a scope refers to.
pub proof fn thread_words(status: ThreadStatus, scope: ThreadScope)
    ensures
        status.word() == (match status {
            ThreadStatus::Active => "active"@,
            ThreadStatus::Completed => "completed"@,
            ThreadStatus::Failed => "failed"@,
            ThreadStatus::Suspended => "suspended"@,
        }),
        match scope {
            ThreadScope::System0 => scope.type_word() == "system0"@ && scope.refers_to() is None,
            ThreadScope::Task { task_id } => scope.type_word() == "task"@ && scope.refers_to()
                == Some(task_id@),
            ThreadScope::UserConversation { conversation_id } => scope.type_word()
                == "user_conversation"@ && scope.refers_to() == Some(id_text(conversation_id)),
            ThreadScope::Collaboration { parent_thread_id, .. } => scope.type_word()
                == "collaboration"@ && scope.refers_to() == Some(parent_thread_id@),
        },
{
}

/// Messages that are told alike are alike in all that they say.
pub proof fn messages_are_told_whole(a: ChatMessage, b: ChatMessage)
    requires
        a@ == b@,
    ensures
        a.id == b.id,
        a.role == b.role,
        a.timestamp == b.timestamp,
        a.token_estimate == b.token_estimate,
        a.metadata == b.metadata,
        match (a.content, b.content) {
            (MessageContent::Text(x), MessageContent::Text(y)) => x@ == y@,
            (MessageContent::ToolCalls(x), MessageContent::ToolCalls(y)) => x@.len() == y@.len()
                && forall|i: int|
                0 <= i < x@.len() ==> (#[trigger] x@[i]).id@ == y@[i].id@ && x@[i].tool_id@
                    == y@[i].tool_id@ && x@[i].arguments@ == y@[i].arguments@,
            (MessageContent::ToolResult(x), MessageContent::ToolResult(y)) => x.call_id@
                == y.call_id@ && match (x.output, y.output) {
                (ToolOutput::Success(p), ToolOutput::Success(q)) => p@ == q@,
                (ToolOutput::Error(p), ToolOutput::Error(q)) => p@ == q@,
                _ => false,
            },
            (MessageContent::Mixed(x), MessageContent::Mixed(y)) => x@.len() == y@.len()
                && forall|i: int|
                0 <= i < x@.len() ==> match ((#[trigger] x@[i]), y@[i]) {
                    (ContentPart::Text(p), ContentPart::Text(q)) => p@ == q@,
                    (ContentPart::ToolCall(p), ContentPart::ToolCall(q)) => p.id@ == q.id@
                        && p.tool_id@ == q.tool_id@ && p.arguments@ == q.arguments@,
                    (ContentPart::ToolResult(p), ContentPart::ToolResult(q)) => p.call_id@
                        == q.call_id@,
                    _ => false,
                },
            _ => false,
        },
{
    match (a.content, b.content) {
        (MessageContent::ToolCalls(x), MessageContent::ToolCalls(y)) => {
            assert(call_views(x@) == call_views(y@));
            assert forall|i: int| 0 <= i < x@.len() implies (#[trigger] x@[i]).id@ == y@[i].id@
                && x@[i].tool_id@ == y@[i].tool_id@ && x@[i].arguments@ == y@[i].arguments@ by {
                assert(call_views(x@)[i] == call_views(y@)[i]);
            }
        },
        (MessageContent::Mixed(x), MessageContent::Mixed(y)) => {
            assert(part_views(x@) == part_views(y@));
            assert(forall|i: int|
                0 <= i < x@.len() ==> (#[trigger] part_views(x@)[i]) == part_views(y@)[i]);
            assert forall|i: int| 0 <= i < x@.len() implies match ((#[trigger] x@[i]), y@[i]) {
                (ContentPart::Text(p), ContentPart::Text(q)) => p@ == q@,
                (ContentPart::ToolCall(p), ContentPart::ToolCall(q)) => p.id@ == q.id@ && p.tool_id@
                    == q.tool_id@ && p.arguments@ == q.arguments@,
                (ContentPart::ToolResult(p), ContentPart::ToolResult(q)) => p.call_id@ == q.call_id@,
                _ => false,
            } by {
                assert(part_views(x@)[i] == part_views(y@)[i]);
            }
        },
        _ => {},
    }
}

/// A message that nothing else is known of has nothing on it.
pub proof fn plain_messages_have_nothing_on_them()
    ensures
        plain_metadata().source is None,
        plain_metadata().parent_message_id is None,
        !plain_metadata().redacted,
        plain_metadata().collaboration_call_id is None,
        plain_metadata().collaboration_result_id is None,
{
}

} // verus!

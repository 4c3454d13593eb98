//! Tasks: what is asked for, how far it has come, and what comes out.

use vstd::prelude::*;
use crate::agent::{AgentId, TaskExecutionState};
use crate::json::{
    array, json_views, number, number_tree, object, opt_text, put_entry, text, text_or_null, Json,
    JsonTree,
};
use crate::text::{byte_len, bytes_in, cat, clip, clipped, copy_opt, lemma_byte_len_bound, opt_view, same};
use crate::time::{new_id, now, Duration, Timestamp};
use crate::trigger::TriggerSource;

verus! {

pub type TaskId = u128;

#[derive(Debug, Clone)]
pub struct Task {
    pub id: TaskId,
    pub parent_id: Option<TaskId>,
    pub trigger_source: TriggerSource,
    pub instruction: String,
    pub assigned_agent: AgentId,
    pub state: TaskState,
    pub priority: TaskPriority,
    pub deadline: Option<Timestamp>,
    pub checkpoints: Vec<Checkpoint>,
    pub idempotency_key: Option<String>,
    pub created_at: Timestamp,
    pub updated_at: Timestamp,
}

#[derive(Debug, Clone)]
pub enum TaskState {
    Queued,
    Dispatched,
    Running { execution_state: TaskExecutionState },
    Completed { output: TaskOutput },
    Failed { error: AgentErrorLike },
    Cancelled { reason: String },
}

#[derive(Debug, Clone, Copy, PartialEq, Eq, PartialOrd, Ord, Structural)]
pub enum TaskPriority {
    Low,
    Normal,
    High,
    Critical,
}

#[derive(Debug, Clone)]
pub struct TaskOutput {
    pub artifacts: Vec<Artifact>,
    pub summary: String,
    pub token_usage: TokenUsage,
    pub duration: Duration,
}

#[derive(Debug, Clone)]
pub struct Artifact {
    pub kind: ArtifactKind,
    pub name: String,
    pub content: String,
    pub mime_type: Option<String>,
}

#[derive(Debug, Clone, Copy, PartialEq, Eq, Structural)]
pub enum ArtifactKind {
    Text,
    Code,
    File,
    Url,
    Data,
}

#[derive(Debug, Clone, Copy, Default, PartialEq, Eq, Structural)]
pub struct TokenUsage {
    pub prompt_tokens: u32,
    pub completion_tokens: u32,
    pub total_tokens: u32,
}

#[derive(Debug, Clone)]
pub struct Checkpoint {
    pub task_id: TaskId,
    pub state_data: Json,
    pub created_at: Timestamp,
}

/// Serializable task failure payload for task terminal state persistence.
#[derive(Debug, Clone)]
pub struct AgentErrorLike {
    pub code: String,
    pub message: String,
}

/// Controls post-processing of an agent's terminal response.
#[derive(Debug, Clone, Copy, Default)]
pub enum OutputMode {
    /// Return text as-is (System0, UserConversation).
    #[default]
    Passthrough,
    /// Run extraction step to produce structured TaskOutput (task dispatch).
    Extract,
}

/// Extraction schema for structured output via LLM `output_schema`.
#[derive(Debug, Clone)]
pub struct TaskOutputSchema {
    pub summary: String,
    pub artifacts: Vec<ArtifactSchema>,
    pub no_reply: bool,
}

#[derive(Debug, Clone)]
pub struct ArtifactSchema {
    pub kind: String,
    pub name: String,
    pub content: String,
}

/// Mode-agnostic terminal output from an agent — the raw final message before any
/// extraction or context-specific post-processing.
#[derive(Debug, Clone)]
pub struct AgentOutput {
    pub message: String,
    pub token_usage: TokenUsage,
    pub duration: Duration,
}

/// Result of a collaboration between agents, wrapping the raw output with a
/// cross-reference back to the collaboration thread.
#[derive(Debug, Clone)]
pub struct CollaborationResult {
    pub agent_output: AgentOutput,
    pub thread_ref: ThreadMessageRef,
}

/// Cross-reference to a specific message within a thread.
#[derive(Debug, Clone)]
pub struct ThreadMessageRef {
    pub thread_id: String,
    pub message_id: u128,
}

impl Task {
    /// A new task, with an identifier of its own.
    pub fn new(
        trigger_source: TriggerSource,
        instruction: String,
        assigned_agent: AgentId,
    ) -> (r: Task)
        ensures
            r.is_new(r.id, trigger_source, instruction, assigned_agent),
    {
        Self::new_with_id(new_id(), trigger_source, instruction, assigned_agent)
    }

    /// The task waits to be taken up; nothing was done for it yet.
    pub open spec fn is_new(
        self,
        id: TaskId,
        trigger_source: TriggerSource,
        instruction: String,
        assigned_agent: AgentId,
    ) -> bool {
        &&& self.id == id
        &&& self.trigger_source == trigger_source
        &&& self.instruction == instruction
        &&& self.assigned_agent == assigned_agent
        &&& self.parent_id is None
        &&& self.state is Queued
        &&& self.priority == TaskPriority::Normal
        &&& self.deadline is None
        &&& self.checkpoints@ == Seq::<Checkpoint>::empty()
        &&& self.idempotency_key is None
        &&& self.created_at == self.updated_at
    }

    /// A new task with a given identifier.
    pub fn new_with_id(
        id: TaskId,
        trigger_source: TriggerSource,
        instruction: String,
        assigned_agent: AgentId,
    ) -> (r: Task)
        ensures
            r.is_new(id, trigger_source, instruction, assigned_agent),
    {
        let at = now();
        Task {
            id,
            parent_id: None,
            trigger_source,
            instruction,
            assigned_agent,
            state: TaskState::Queued,
            priority: TaskPriority::Normal,
            deadline: None,
            checkpoints: Vec::new(),
            idempotency_key: None,
            created_at: at,
            updated_at: at,
        }
    }

    pub fn with_priority(self, priority: TaskPriority) -> (r: Task)
        ensures
            r == (Task { priority, ..self }),
    {
        let mut it = self;
        it.priority = priority;
        it
    }

    pub fn with_idempotency_key(self, key: String) -> (r: Task)
        ensures
            r == (Task { idempotency_key: Some(key), ..self }),
    {
        let mut it = self;
        it.idempotency_key = Some(key);
        it
    }

    pub fn with_parent(self, parent_id: TaskId) -> (r: Task)
        ensures
            r == (Task { parent_id: Some(parent_id), ..self }),
    {
        let mut it = self;
        it.parent_id = Some(parent_id);
        it
    }
}

impl TaskState {
    /// Nothing comes after the state.
    pub open spec fn over(self) -> bool {
        self is Completed || self is Failed || self is Cancelled
    }

    pub fn is_terminal(&self) -> (r: bool)
        ensures
            r == self.over(),
    {
        match self {
            TaskState::Completed { .. } => true,
            TaskState::Failed { .. } => true,
            TaskState::Cancelled { .. } => true,
            _ => false,
        }
    }

    /// The task waits or is worked on.
    pub open spec fn active(self) -> bool {
        self is Queued || self is Dispatched || self is Running
    }

    pub fn is_active(&self) -> (r: bool)
        ensures
            r == self.active(),
    {
        match self {
            TaskState::Queued => true,
            TaskState::Dispatched => true,
            TaskState::Running { .. } => true,
            _ => false,
        }
    }
}

/// A task is either active or over.
pub proof fn active_or_over(state: TaskState)
    ensures
        state.over() <==> !state.active(),
{
}

/// The kind of artifact that a word stands for.
pub open spec fn kind_named(s: Seq<char>) -> Option<ArtifactKind> {
    if s == "text"@ {
        Some(ArtifactKind::Text)
    } else if s == "code"@ {
        Some(ArtifactKind::Code)
    } else if s == "file"@ {
        Some(ArtifactKind::File)
    } else if s == "url"@ {
        Some(ArtifactKind::Url)
    } else if s == "data"@ {
        Some(ArtifactKind::Data)
    } else {
        None
    }
}

impl ArtifactKind {
    /// The word for a kind of artifact.
    pub open spec fn word(self) -> Seq<char> {
        match self {
            ArtifactKind::Text => "text"@,
            ArtifactKind::Code => "code"@,
            ArtifactKind::File => "file"@,
            ArtifactKind::Url => "url"@,
            ArtifactKind::Data => "data"@,
        }
    }

    /// The word for a kind of artifact.
    pub fn as_str(self) -> (r: &'static str)
        ensures
            r@ == self.word(),
    {
        match self {
            ArtifactKind::Text => "text",
            ArtifactKind::Code => "code",
            ArtifactKind::File => "file",
            ArtifactKind::Url => "url",
            ArtifactKind::Data => "data",
        }
    }

    /// The kind of artifact that a word stands for.
    pub fn from_str(s: &str) -> (r: Result<ArtifactKind, ()>)
        ensures
            match r {
                Ok(kind) => kind_named(s@) == Some(kind),
                Err(_) => kind_named(s@) is None,
            },
    {
        if same(s, "text") {
            Ok(ArtifactKind::Text)
        } else if same(s, "code") {
            Ok(ArtifactKind::Code)
        } else if same(s, "file") {
            Ok(ArtifactKind::File)
        } else if same(s, "url") {
            Ok(ArtifactKind::Url)
        } else if same(s, "data") {
            Ok(ArtifactKind::Data)
        } else {
            Err(())
        }
    }
}

/// The word for a kind of artifact stands for that kind.
pub proof fn artifact_words_read_back(kind: ArtifactKind)
    ensures
        kind_named(kind.word()) == Some(kind),
{
    reveal_strlit("text");
    reveal_strlit("code");
    reveal_strlit("file");
    reveal_strlit("url");
    reveal_strlit("data");
    assert("text"@[0] == 't' && "code"@[0] == 'c' && "file"@[0] == 'f' && "url"@[0] == 'u'
        && "data"@[0] == 'd');
}

impl AgentErrorLike {
    pub fn new(code: &str, message: &str) -> (r: AgentErrorLike)
        ensures
            r.code@ == code@,
            r.message@ == message@,
    {
        AgentErrorLike { code: code.to_owned(), message: message.to_owned() }
    }
}

/// What an artifact holds.
#[verifier::ext_equal]
pub struct ArtifactView {
    pub kind: ArtifactKind,
    pub name: Seq<char>,
    pub content: Seq<char>,
    pub mime_type: Option<Seq<char>>,
}

impl View for Artifact {
    type V = ArtifactView;

    open spec fn view(&self) -> ArtifactView {
        ArtifactView {
            kind: self.kind,
            name: self.name@,
            content: self.content@,
            mime_type: opt_view(self.mime_type),
        }
    }
}

/// What the artifacts of a list hold.
pub open spec fn artifact_views(list: Seq<Artifact>) -> Seq<ArtifactView> {
    Seq::new(list.len(), |i: int| list[i]@)
}

impl Artifact {
    /// A copy of an artifact.
    pub fn copy(&self) -> (r: Artifact)
        ensures
            r@ == self@,
    {
        Artifact {
            kind: self.kind,
            name: self.name.clone(),
            content: self.content.clone(),
            mime_type: copy_opt(&self.mime_type),
        }
    }
}

/// Copies of the artifacts of a list.
pub fn copy_artifacts(list: &Vec<Artifact>) -> (r: Vec<Artifact>)
    ensures
        artifact_views(r@) == artifact_views(list@),
{
    let mut r: Vec<Artifact> = Vec::new();
    let mut i: usize = 0;
    while i < list.len()
        invariant
            i <= list@.len(),
            r@.len() == i,
            forall|k: int| 0 <= k < i ==> (#[trigger] r@[k])@ == list@[k]@,
        decreases list@.len() - i,
    {
        r.push(list[i].copy());
        i = i + 1;
    }
    assert(artifact_views(r@) =~= artifact_views(list@));
    r
}

/// What the output of a task holds.
#[verifier::ext_equal]
pub struct OutputView {
    pub artifacts: Seq<ArtifactView>,
    pub summary: Seq<char>,
    pub token_usage: TokenUsage,
    pub duration: Duration,
}

impl View for TaskOutput {
    type V = OutputView;

    open spec fn view(&self) -> OutputView {
        OutputView {
            artifacts: artifact_views(self.artifacts@),
            summary: self.summary@,
            token_usage: self.token_usage,
            duration: self.duration,
        }
    }
}

impl TaskOutput {
    /// A copy of the output.
    pub fn copy(&self) -> (r: TaskOutput)
        ensures
            r@ == self@,
    {
        TaskOutput {
            artifacts: copy_artifacts(&self.artifacts),
            summary: self.summary.clone(),
            token_usage: self.token_usage,
            duration: self.duration,
        }
    }
}

/// The artifacts that a structured answer describes. A kind that is not known counts as text.
pub open spec fn described(list: Seq<ArtifactSchema>) -> Seq<ArtifactView> {
    Seq::new(
        list.len(),
        |i: int|
            ArtifactView {
                kind: match kind_named(list[i].kind@) {
                    Some(kind) => kind,
                    None => ArtifactKind::Text,
                },
                name: list[i].name@,
                content: list[i].content@,
                mime_type: None,
            },
    )
}

impl TaskOutputSchema {
    /// The output that a structured answer describes.
    pub fn into_task_output(self, token_usage: TokenUsage, duration: Duration) -> (r: TaskOutput)
        ensures
            r@ == (OutputView {
                artifacts: described(self.artifacts@),
                summary: self.summary@,
                token_usage,
                duration,
            }),
    {
        let mut artifacts: Vec<Artifact> = Vec::new();
        let mut i: usize = 0;
        while i < self.artifacts.len()
            invariant
                i <= self.artifacts@.len(),
                artifacts@.len() == i,
                forall|k: int|
                    0 <= k < i ==> (#[trigger] artifacts@[k])@ == described(self.artifacts@)[k],
            decreases self.artifacts@.len() - i,
        {
            let kind = match ArtifactKind::from_str(self.artifacts[i].kind.as_str()) {
                Ok(kind) => kind,
                Err(_) => ArtifactKind::Text,
            };
            artifacts.push(
                Artifact {
                    kind,
                    name: self.artifacts[i].name.clone(),
                    content: self.artifacts[i].content.clone(),
                    mime_type: None,
                },
            );
            i = i + 1;
        }
        assert(artifact_views(artifacts@) =~= described(self.artifacts@));
        TaskOutput { artifacts, summary: self.summary, token_usage, duration }
    }
}

/// What an answer comes down to: the answer itself where it has at most 200 bytes, else its
/// first 200 characters.
pub open spec fn answer_summary(message: Seq<char>) -> Seq<char> {
    if byte_len(message) <= 200 {
        message
    } else {
        clipped(message, 200) + "..."@
    }
}

/// An answer as the one artifact of an output.
pub open spec fn answer_artifact(message: Seq<char>) -> ArtifactView {
    ArtifactView {
        kind: ArtifactKind::Text,
        name: "response"@,
        content: message,
        mime_type: Some("text/plain"@),
    }
}

/// An answer as an artifact.
pub fn answer_as_artifact(message: String) -> (r: Artifact)
    ensures
        r@ == answer_artifact(message@),
{
    Artifact {
        kind: ArtifactKind::Text,
        name: "response".to_owned(),
        content: message,
        mime_type: Some("text/plain".to_owned()),
    }
}

impl AgentOutput {
    /// Convert to a TaskOutput by wrapping the message as a text artifact.
    /// This is the fallback when no structured extraction step is performed.
    pub fn into_task_output(self) -> (r: TaskOutput)
        ensures
            r@ == (OutputView {
                artifacts: seq![answer_artifact(self.message@)],
                summary: answer_summary(self.message@),
                token_usage: self.token_usage,
                duration: self.duration,
            }),
    {
        let summary = if bytes_in(self.message.as_str()) <= 200 {
            self.message.clone()
        } else {
            cat(clip(self.message.as_str(), 200).as_str(), "...")
        };
        let artifacts = vec![answer_as_artifact(self.message)];
        assert(artifact_views(artifacts@) =~= seq![answer_artifact(self.message@)]);
        TaskOutput { artifacts, summary, token_usage: self.token_usage, duration: self.duration }
    }

    /// A copy of the output.
    pub fn copy(&self) -> (r: AgentOutput)
        ensures
            r == *self,
    {
        AgentOutput {
            message: self.message.clone(),
            token_usage: self.token_usage,
            duration: self.duration,
        }
    }
}

/// The summary of an answer has at most two hundred characters and the mark of what is left out.
pub proof fn answer_summary_is_short(message: Seq<char>)
    ensures
        answer_summary(message).len() <= 203,
{
    reveal_strlit("...");
    lemma_byte_len_bound(message);
}

// ---- as JSON -----------------------------------------------------------------------------

/// An artifact as a JSON document.
pub open spec fn artifact_tree(a: ArtifactView) -> JsonTree {
    JsonTree::Object(
        seq![
            ("content"@, JsonTree::Text(a.content)),
            ("kind"@, JsonTree::Text(a.kind.word())),
            ("mime_type"@, text_or_null(a.mime_type)),
            ("name"@, JsonTree::Text(a.name)),
        ],
    )
}

/// Artifacts as JSON documents.
pub open spec fn artifact_trees(list: Seq<ArtifactView>) -> Seq<JsonTree> {
    Seq::new(list.len(), |i: int| artifact_tree(list[i]))
}

/// The output of a task as a JSON document.
pub open spec fn output_tree(output: OutputView) -> JsonTree {
    JsonTree::Object(
        seq![
            ("artifacts"@, JsonTree::Array(artifact_trees(output.artifacts))),
            (
                "duration"@,
                JsonTree::Object(
                    seq![
                        ("nanos"@, number_tree(output.duration.nanos as nat)),
                        ("secs"@, number_tree(output.duration.secs as nat)),
                    ],
                ),
            ),
            ("summary"@, JsonTree::Text(output.summary)),
            (
                "token_usage"@,
                JsonTree::Object(
                    seq![
                        (
                            "completion_tokens"@,
                            number_tree(output.token_usage.completion_tokens as nat),
                        ),
                        ("prompt_tokens"@, number_tree(output.token_usage.prompt_tokens as nat)),
                        ("total_tokens"@, number_tree(output.token_usage.total_tokens as nat)),
                    ],
                ),
            ),
        ],
    )
}

fn artifact_json(a: &Artifact) -> (r: Json)
    ensures
        r@ == artifact_tree(a@),
{
    let mut entries: Vec<(String, Json)> = Vec::new();
    put_entry(&mut entries, "content", text(a.content.as_str()));
    put_entry(&mut entries, "kind", text(a.kind.as_str()));
    put_entry(&mut entries, "mime_type", opt_text(&a.mime_type));
    put_entry(&mut entries, "name", text(a.name.as_str()));
    let r = object(entries);
    assert(r@->Object_0 =~= artifact_tree(a@)->Object_0);
    r
}

impl TaskOutput {
    /// The output as a JSON document.
    pub fn to_json(&self) -> (r: Json)
        ensures
            r@ == output_tree(self@),
    {
        let mut artifacts: Vec<Json> = Vec::new();
        let mut i: usize = 0;
        while i < self.artifacts.len()
            invariant
                i <= self.artifacts@.len(),
                artifacts@.len() == i,
                forall|k: int|
                    0 <= k < i ==> (#[trigger] artifacts@[k])@ == artifact_tree(
                        self.artifacts@[k]@,
                    ),
            decreases self.artifacts@.len() - i,
        {
            artifacts.push(artifact_json(&self.artifacts[i]));
            i = i + 1;
        }
        assert(json_views(artifacts@) =~= artifact_trees(self@.artifacts));
        let mut duration: Vec<(String, Json)> = Vec::new();
        put_entry(&mut duration, "nanos", number(self.duration.nanos as u64));
        put_entry(&mut duration, "secs", number(self.duration.secs));
        let mut usage: Vec<(String, Json)> = Vec::new();
        put_entry(
            &mut usage,
            "completion_tokens",
            number(self.token_usage.completion_tokens as u64),
        );
        put_entry(&mut usage, "prompt_tokens", number(self.token_usage.prompt_tokens as u64));
        put_entry(&mut usage, "total_tokens", number(self.token_usage.total_tokens as u64));
        let duration = object(duration);
        let usage = object(usage);
        let mut entries: Vec<(String, Json)> = Vec::new();
        put_entry(&mut entries, "artifacts", array(artifacts));
        put_entry(&mut entries, "duration", duration);
        put_entry(&mut entries, "summary", text(self.summary.as_str()));
        put_entry(&mut entries, "token_usage", usage);
        let r = object(entries);
        proof {
            let t = output_tree(self@);
            assert(duration@->Object_0 =~= t->Object_0[1].1->Object_0);
            assert(usage@->Object_0 =~= t->Object_0[3].1->Object_0);
            assert(r@->Object_0 =~= t->Object_0);
        }
        r
    }
}

/// The state of a task that is done, as a JSON document.
pub open spec fn completed_tree(output: OutputView) -> JsonTree {
    JsonTree::Object(
        seq![("Completed"@, JsonTree::Object(seq![("output"@, output_tree(output))]))],
    )
}

/// The point that a task that is done has come to.
pub fn completed_checkpoint(task_id: TaskId, output: &TaskOutput, at: Timestamp) -> (r: Checkpoint)
    ensures
        r.task_id == task_id,
        r.state_data@ == completed_tree(output@),
        r.created_at == at,
{
    let mut inner: Vec<(String, Json)> = Vec::new();
    put_entry(&mut inner, "output", output.to_json());
    let inner = object(inner);
    let mut outer: Vec<(String, Json)> = Vec::new();
    put_entry(&mut outer, "Completed", inner);
    let state_data = object(outer);
    proof {
        assert(inner@->Object_0 =~= seq![("output"@, output_tree(output@))]);
        assert(state_data@->Object_0 =~= completed_tree(output@)->Object_0);
    }
    Checkpoint { task_id, state_data, created_at: at }
}

/// A task is over once it is completed, failed or cancelled, and active before that.
pub proof fn tasks_end_in_three_ways(state: TaskState)
    ensures
        match state {
            TaskState::Queued => state.active() && !state.over(),
            TaskState::Dispatched => state.active() && !state.over(),
            TaskState::Running { .. } => state.active() && !state.over(),
            TaskState::Completed { .. } => state.over() && !state.active(),
            TaskState::Failed { .. } => state.over() && !state.active(),
            TaskState::Cancelled { .. } => state.over() && !state.active(),
        },
{
}

/// A new task waits for its agent with its instruction as it was given, of normal priority, with
/// nothing done on it.
pub proof fn new_tasks_wait(
    task: Task,
    id: TaskId,
    trigger_source: TriggerSource,
    instruction: String,
    assigned_agent: AgentId,
)
    requires
        task.is_new(id, trigger_source, instruction, assigned_agent),
    ensures
        task.id == id,
        task.trigger_source == trigger_source,
        task.instruction == instruction,
        task.assigned_agent == assigned_agent,
        task.state is Queued,
        task.priority is Normal,
        task.parent_id is None,
        task.deadline is None,
        task.idempotency_key is None,
        task.checkpoints@.len() == 0,
        task.created_at == task.updated_at,
{
}

/// The words for kinds of artifacts; no other word names one.
pub proof fn artifact_words(kind: ArtifactKind, s: Seq<char>)
    ensures
        kind.word() == (match kind {
            ArtifactKind::Text => "text"@,
            ArtifactKind::Code => "code"@,
            ArtifactKind::File => "file"@,
            ArtifactKind::Url => "url"@,
            ArtifactKind::Data => "data"@,
        }),
        kind_named(s) matches Some(k) ==> k.word() == s,
{
}

/// Each described artifact becomes one, in the same place, with its name and its content; where its
/// kind is no kind, it is a text.
pub proof fn described_artifacts_are_kept(list: Seq<ArtifactSchema>, i: int, kind: ArtifactKind)
    requires
        0 <= i < list.len(),
    ensures
        described(list).len() == list.len(),
        described(list)[i].name == list[i].name@,
        described(list)[i].content == list[i].content@,
        described(list)[i].mime_type is None,
        list[i].kind@ == kind.word() ==> described(list)[i].kind == kind,
        list[i].kind@ != "text"@ && list[i].kind@ != "code"@ && list[i].kind@ != "file"@
            && list[i].kind@ != "url"@ && list[i].kind@ != "data"@ ==> described(list)[i].kind is Text,
{
    artifact_words_read_back(kind);
}

/// An answer of at most two hundred bytes is its own summary; of a longer one the summary is the
/// first two hundred characters and three dots.
pub proof fn long_answers_are_cut(message: Seq<char>)
    ensures
        byte_len(message) <= 200 ==> answer_summary(message) == message,
        byte_len(message) > 200 && message.len() >= 200 ==> answer_summary(message)
            == message.take(200) + seq!['.', '.', '.'],
        byte_len(message) > 200 && message.len() < 200 ==> answer_summary(message) == message
            + seq!['.', '.', '.'],
{
    reveal_strlit("...");
    assert("..."@ =~= seq!['.', '.', '.']);
    if message.len() == 200 {
        assert(message.take(200) =~= message);
    }
}

/// The artifact of an answer is the whole answer, as plain text.
pub proof fn answers_are_kept_whole(message: Seq<char>)
    ensures
        answer_artifact(message).content == message,
        answer_artifact(message).kind is Text,
        answer_artifact(message).name == "response"@,
        answer_artifact(message).mime_type == Some("text/plain"@),
{
}

/// An output is written down with all that it holds: each artifact, the summary, the duration and
/// the tokens.
pub proof fn outputs_are_written_whole(output: OutputView, i: int)
    ensures
        output_tree(output).field("summary"@) == Some(JsonTree::Text(output.summary)),
        output_tree(output).field("artifacts"@) matches Some(JsonTree::Array(list)) && list.len()
            == output.artifacts.len() && (0 <= i < list.len() ==> list[i].field("name"@) == Some(
            JsonTree::Text(output.artifacts[i].name),
        ) && list[i].field("content"@) == Some(JsonTree::Text(output.artifacts[i].content))
            && list[i].field("kind"@) == Some(JsonTree::Text(output.artifacts[i].kind.word()))
            && list[i].field("mime_type"@) == Some(
            match output.artifacts[i].mime_type {
                Some(m) => JsonTree::Text(m),
                None => JsonTree::Null,
            },
        )),
        output_tree(output).field("duration"@) matches Some(d) && d.field("secs"@) == Some(
            number_tree(output.duration.secs as nat),
        ) && d.field("nanos"@) == Some(number_tree(output.duration.nanos as nat)),
        output_tree(output).field("token_usage"@) matches Some(t) && t.field("prompt_tokens"@)
            == Some(number_tree(output.token_usage.prompt_tokens as nat)) && t.field(
            "completion_tokens"@,
        ) == Some(number_tree(output.token_usage.completion_tokens as nat)) && t.field(
            "total_tokens"@,
        ) == Some(number_tree(output.token_usage.total_tokens as nat)),
        completed_tree(output).field("Completed"@) matches Some(c) && c.field("output"@) == Some(
            output_tree(output),
        ),
{
    reveal_strlit("summary");
    reveal_strlit("artifacts");
    reveal_strlit("name");
    reveal_strlit("content");
    reveal_strlit("kind");
    reveal_strlit("mime_type");
    reveal_strlit("duration");
    reveal_strlit("secs");
    reveal_strlit("nanos");
    reveal_strlit("token_usage");
    reveal_strlit("prompt_tokens");
    reveal_strlit("completion_tokens");
    reveal_strlit("total_tokens");
    assert("summary"@.len() == 7 && "artifacts"@.len() == 9 && "duration"@.len() == 8
        && "token_usage"@.len() == 11);
    assert("name"@.len() == 4 && "content"@.len() == 7 && "kind"@.len() == 4 && "mime_type"@.len()
        == 9 && "name"@[0] == 'n' && "kind"@[0] == 'k');
    assert("secs"@.len() == 4 && "nanos"@.len() == 5);
    assert("prompt_tokens"@.len() == 13 && "completion_tokens"@.len() == 17 && "total_tokens"@.len()
        == 12);
    reveal_with_fuel(crate::json::entry, 5);
}

/// Outputs that are told alike hold the same artifacts, summary, tokens and time.
pub proof fn outputs_are_told_whole(a: TaskOutput, b: TaskOutput, i: int)
    requires
        a@ == b@,
    ensures
        a.summary@ == b.summary@,
        a.token_usage == b.token_usage,
        a.duration == b.duration,
        a.artifacts@.len() == b.artifacts@.len(),
        0 <= i < a.artifacts@.len() ==> a.artifacts@[i].kind == b.artifacts@[i].kind
            && a.artifacts@[i].name@ == b.artifacts@[i].name@ && a.artifacts@[i].content@
            == b.artifacts@[i].content@ && opt_view(a.artifacts@[i].mime_type) == opt_view(
            b.artifacts@[i].mime_type,
        ),
{
    assert(artifact_views(a.artifacts@) == artifact_views(b.artifacts@));
    assert(artifact_views(a.artifacts@).len() == artifact_views(b.artifacts@).len());
    if 0 <= i < a.artifacts@.len() {
        assert(artifact_views(a.artifacts@)[i] == artifact_views(b.artifacts@)[i]);
    }
}

} // verus!

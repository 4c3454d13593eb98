//! What agents of other systems send and get.

use vstd::prelude::*;
use crate::json::{Json, JsonTree};
use crate::task::TaskId;
use crate::time::Timestamp;

verus! {

/// A2A message part — text or structured data.
#[derive(Debug)]
pub enum Part {
    Text { text: String },
    Data { data: Json },
}

/// A message in the A2A protocol.
#[derive(Debug)]
pub struct A2aMessage {
    pub role: String,
    pub parts: Vec<Part>,
    pub metadata: Option<Json>,
}

/// Request to send a message to an agent.
#[derive(Debug)]
pub struct MessageSendRequest {
    pub message: A2aMessage,
    pub task_id: Option<String>,
    pub configuration: Option<TaskConfiguration>,
}

/// Optional task execution configuration.
#[derive(Debug)]
pub struct TaskConfiguration {
    pub accepted_output_modes: Option<Vec<String>>,
    pub blocking: Option<bool>,
}

/// A2A task status enum.
#[derive(Debug, Clone, Copy, PartialEq, Eq, Structural)]
pub enum A2aTaskStatus {
    Working,
    InputRequired,
    Completed,
    Failed,
}

/// An artifact produced by task execution.
#[derive(Debug)]
pub struct A2aArtifact {
    pub name: String,
    pub parts: Vec<Part>,
    pub index: Option<u32>,
    pub last_chunk: Option<bool>,
    pub metadata: Option<Json>,
}

/// Response to a task status query.
#[derive(Debug)]
pub struct TaskStatusResponse {
    pub id: String,
    pub status: A2aTaskStatus,
    pub artifacts: Vec<A2aArtifact>,
    pub history: Vec<A2aMessage>,
    pub metadata: Option<Json>,
}

/// Paginated task list response.
#[derive(Debug)]
pub struct TaskListResponse {
    pub tasks: Vec<TaskStatusResponse>,
}

/// Message send response — returns the current task state.
#[derive(Debug)]
pub struct MessageSendResponse {
    pub id: String,
    pub status: A2aTaskStatus,
    pub artifacts: Vec<A2aArtifact>,
    pub history: Vec<A2aMessage>,
}

/// A2A Agent Card — describes agent capabilities for discovery.
#[derive(Debug)]
pub struct AgentCard {
    pub name: String,
    pub description: String,
    pub url: String,
    pub provider: Option<AgentProvider>,
    pub version: String,
    pub capabilities: Vec<AgentCapability>,
    pub skills: Vec<AgentSkillCard>,
    pub default_input_modes: Option<Vec<String>>,
    pub default_output_modes: Option<Vec<String>>,
}

#[derive(Debug)]
pub struct AgentProvider {
    pub organization: String,
    pub url: Option<String>,
}

#[derive(Debug)]
pub struct AgentCapability {
    pub name: String,
    pub description: Option<String>,
}

#[derive(Debug)]
pub struct AgentSkillCard {
    pub id: String,
    pub name: String,
    pub description: Option<String>,
    pub tags: Vec<String>,
}

/// SSE streaming event for message:stream and tasks/{id}:subscribe.
#[derive(Debug)]
pub enum StreamEvent {
    StatusUpdate {
        task_id: String,
        status: A2aTaskStatus,
    },
    Artifact {
        task_id: String,
        artifact: A2aArtifact,
    },
    Message {
        task_id: String,
        message: A2aMessage,
    },
    Done {
        task_id: String,
    },
}

/// A2A error response body.
#[derive(Debug)]
pub struct A2aErrorResponse {
    pub code: String,
    pub message: String,
    pub details: Option<Json>,
}

/// Cancellation request.
#[derive(Debug)]
pub struct TaskCancelRequest {
    pub reason: Option<String>,
}

/// Internal record for tracking an A2A task within the registry.
#[derive(Debug)]
pub struct A2aTaskRecord {
    pub id: String,
    pub status: A2aTaskStatus,
    pub artifacts: Vec<A2aArtifact>,
    pub history: Vec<A2aMessage>,
    pub internal_task_id: Option<TaskId>,
    pub created_at: Timestamp,
    pub updated_at: Timestamp,
}

impl A2aTaskStatus {
    /// The word for a status.
    pub open spec fn word(self) -> Seq<char> {
        match self {
            A2aTaskStatus::Working => "working"@,
            A2aTaskStatus::InputRequired => "input_required"@,
            A2aTaskStatus::Completed => "completed"@,
            A2aTaskStatus::Failed => "failed"@,
        }
    }

    /// The word for a status.
    pub fn as_str(self) -> (r: &'static str)
        ensures
            r@ == self.word(),
    {
        match self {
            A2aTaskStatus::Working => "working",
            A2aTaskStatus::InputRequired => "input_required",
            A2aTaskStatus::Completed => "completed",
            A2aTaskStatus::Failed => "failed",
        }
    }
}

/// What a part of a message holds.
#[verifier::ext_equal]
pub enum A2aPartView {
    Text(Seq<char>),
    Data(JsonTree),
}

impl View for Part {
    type V = A2aPartView;

    open spec fn view(&self) -> A2aPartView {
        match self {
            Part::Text { text } => A2aPartView::Text(text@),
            Part::Data { data } => A2aPartView::Data(data@),
        }
    }
}

/// What the parts of a list hold.
pub open spec fn a2a_parts(list: Seq<Part>) -> Seq<A2aPartView> {
    Seq::new(list.len(), |i: int| list[i]@)
}

/// What a document that may be missing holds.
pub open spec fn opt_tree(value: Option<Json>) -> Option<JsonTree> {
    match value {
        Some(j) => Some(j@),
        None => None,
    }
}

fn copy_json(value: &Option<Json>) -> (r: Option<Json>)
    ensures
        opt_tree(r) == opt_tree(*value),
{
    match value {
        Some(j) => Some(j.copy()),
        None => None,
    }
}

fn copy_parts(list: &Vec<Part>) -> (r: Vec<Part>)
    ensures
        a2a_parts(r@) == a2a_parts(list@),
{
    let mut r: Vec<Part> = Vec::new();
    let mut i: usize = 0;
    while i < list.len()
        invariant
            i <= list@.len(),
            r@.len() == i,
            forall|k: int| 0 <= k < i ==> (#[trigger] r@[k])@ == list@[k]@,
        decreases list@.len() - i,
    {
        let part = match &list[i] {
            Part::Text { text } => Part::Text { text: text.clone() },
            Part::Data { data } => Part::Data { data: data.copy() },
        };
        r.push(part);
        i = i + 1;
    }
    assert(a2a_parts(r@) =~= a2a_parts(list@));
    r
}

/// What a message holds.
#[verifier::ext_equal]
pub struct A2aMessageView {
    pub role: Seq<char>,
    pub parts: Seq<A2aPartView>,
    pub metadata: Option<JsonTree>,
}

impl View for A2aMessage {
    type V = A2aMessageView;

    open spec fn view(&self) -> A2aMessageView {
        A2aMessageView {
            role: self.role@,
            parts: a2a_parts(self.parts@),
            metadata: opt_tree(self.metadata),
        }
    }
}

/// What the messages of a list hold.
pub open spec fn a2a_messages(list: Seq<A2aMessage>) -> Seq<A2aMessageView> {
    Seq::new(list.len(), |i: int| list[i]@)
}

impl A2aMessage {
    /// A copy of the message.
    pub fn copy(&self) -> (r: A2aMessage)
        ensures
            r@ == self@,
    {
        A2aMessage {
            role: self.role.clone(),
            parts: copy_parts(&self.parts),
            metadata: copy_json(&self.metadata),
        }
    }
}

/// Copies of the messages of a list.
pub fn copy_a2a_messages(list: &Vec<A2aMessage>) -> (r: Vec<A2aMessage>)
    ensures
        a2a_messages(r@) == a2a_messages(list@),
{
    let mut r: Vec<A2aMessage> = Vec::new();
    let mut i: usize = 0;
    while i < list.len()
        invariant
            i <= list@.len(),
            r@.len() == i,
            forall|k: int| 0 <= k < i ==> (#[trigger] r@[k])@ == list@[k]@,
        decreases list@.len() - i,
    {
        r.push(list[i].copy());
        i = i + 1;
    }
    assert(a2a_messages(r@) =~= a2a_messages(list@));
    r
}

/// What an artifact holds.
#[verifier::ext_equal]
pub struct A2aArtifactView {
    pub name: Seq<char>,
    pub parts: Seq<A2aPartView>,
    pub index: Option<u32>,
    pub last_chunk: Option<bool>,
    pub metadata: Option<JsonTree>,
}

impl View for A2aArtifact {
    type V = A2aArtifactView;

    open spec fn view(&self) -> A2aArtifactView {
        A2aArtifactView {
            name: self.name@,
            parts: a2a_parts(self.parts@),
            index: self.index,
            last_chunk: self.last_chunk,
            metadata: opt_tree(self.metadata),
        }
    }
}

/// What the artifacts of a list hold.
pub open spec fn a2a_artifacts(list: Seq<A2aArtifact>) -> Seq<A2aArtifactView> {
    Seq::new(list.len(), |i: int| list[i]@)
}

impl A2aArtifact {
    /// A copy of the artifact.
    pub fn copy(&self) -> (r: A2aArtifact)
        ensures
            r@ == self@,
    {
        A2aArtifact {
            name: self.name.clone(),
            parts: copy_parts(&self.parts),
            index: self.index,
            last_chunk: self.last_chunk,
            metadata: copy_json(&self.metadata),
        }
    }
}

/// Copies of the artifacts of a list.
pub fn copy_a2a_artifacts(list: &Vec<A2aArtifact>) -> (r: Vec<A2aArtifact>)
    ensures
        a2a_artifacts(r@) == a2a_artifacts(list@),
{
    let mut r: Vec<A2aArtifact> = Vec::new();
    let mut i: usize = 0;
    while i < list.len()
        invariant
            i <= list@.len(),
            r@.len() == i,
            forall|k: int| 0 <= k < i ==> (#[trigger] r@[k])@ == list@[k]@,
        decreases list@.len() - i,
    {
        r.push(list[i].copy());
        i = i + 1;
    }
    assert(a2a_artifacts(r@) =~= a2a_artifacts(list@));
    r
}

/// What is known of a task.
#[verifier::ext_equal]
pub struct RecordView {
    pub id: Seq<char>,
    pub status: A2aTaskStatus,
    pub artifacts: Seq<A2aArtifactView>,
    pub history: Seq<A2aMessageView>,
    pub internal_task_id: Option<TaskId>,
    pub created_at: Timestamp,
    pub updated_at: Timestamp,
}

impl View for A2aTaskRecord {
    type V = RecordView;

    open spec fn view(&self) -> RecordView {
        RecordView {
            id: self.id@,
            status: self.status,
            artifacts: a2a_artifacts(self.artifacts@),
            history: a2a_messages(self.history@),
            internal_task_id: self.internal_task_id,
            created_at: self.created_at,
            updated_at: self.updated_at,
        }
    }
}

impl A2aTaskRecord {
    /// A copy of what is known.
    pub fn copy(&self) -> (r: A2aTaskRecord)
        ensures
            r@ == self@,
    {
        A2aTaskRecord {
            id: self.id.clone(),
            status: self.status,
            artifacts: copy_a2a_artifacts(&self.artifacts),
            history: copy_a2a_messages(&self.history),
            internal_task_id: self.internal_task_id,
            created_at: self.created_at,
            updated_at: self.updated_at,
        }
    }
}

/// The words for how a task stands.
pub proof fn status_words(status: A2aTaskStatus)
    ensures
        status.word() == (match status {
            A2aTaskStatus::Working => "working"@,
            A2aTaskStatus::InputRequired => "input_required"@,
            A2aTaskStatus::Completed => "completed"@,
            A2aTaskStatus::Failed => "failed"@,
        }),
{
}

/// Messages and artifacts that are told alike have the same parts.
pub proof fn messages_and_artifacts_are_told_whole(
    a: A2aMessage,
    b: A2aMessage,
    x: A2aArtifact,
    y: A2aArtifact,
    i: int,
)
    requires
        a@ == b@,
        x@ == y@,
    ensures
        a.role@ == b.role@,
        a.parts@.len() == b.parts@.len(),
        0 <= i < a.parts@.len() ==> match (a.parts@[i], b.parts@[i]) {
            (Part::Text { text: s }, Part::Text { text: t }) => s@ == t@,
            (Part::Data { data: s }, Part::Data { data: t }) => s@ == t@,
            _ => false,
        },
        x.name@ == y.name@,
        x.index == y.index,
        x.last_chunk == y.last_chunk,
        x.parts@.len() == y.parts@.len(),
        0 <= i < x.parts@.len() ==> match (x.parts@[i], y.parts@[i]) {
            (Part::Text { text: s }, Part::Text { text: t }) => s@ == t@,
            (Part::Data { data: s }, Part::Data { data: t }) => s@ == t@,
            _ => false,
        },
{
    assert(a2a_parts(a.parts@) == a2a_parts(b.parts@));
    assert(a2a_parts(x.parts@) == a2a_parts(y.parts@));
    assert(a2a_parts(a.parts@).len() == a2a_parts(b.parts@).len());
    assert(a2a_parts(x.parts@).len() == a2a_parts(y.parts@).len());
    if 0 <= i < a.parts@.len() {
        assert(a2a_parts(a.parts@)[i] == a2a_parts(b.parts@)[i]);
    }
    if 0 <= i < x.parts@.len() {
        assert(a2a_parts(x.parts@)[i] == a2a_parts(y.parts@)[i]);
    }
}

} // verus!

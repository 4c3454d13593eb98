//! Memories: what agents keep, and how it is asked for.

use vstd::prelude::*;
use crate::json::{Json, JsonTree};
use crate::text::{same, views};
use crate::time::{new_id, now, Timestamp};

verus! {

pub type MemoryId = u128;

/// A single memory record.
#[derive(Debug, Clone)]
pub struct MemoryItem {
    pub id: MemoryId,
    pub partition: String,
    pub kind: MemoryKind,
    pub content: String,
    pub tags: Vec<String>,
    pub source: MemorySource,
    pub sensitivity: Sensitivity,
    pub created_at: Timestamp,
    pub expires_at: Option<Timestamp>,
    pub metadata: Json,
}

#[derive(Debug, Clone, Copy, PartialEq, Eq, Structural)]
pub enum MemoryKind {
    Message,
    Summary,
    Fact,
    Artifact,
    Link,
    ToolResult,
}

#[derive(Debug, Clone, Copy, PartialEq, Eq, Structural)]
pub enum MemorySource {
    Discord,
    Cron,
    A2a,
    Tool,
    Agent,
    System,
}

#[derive(Debug, Clone, Copy, PartialEq, Eq, Structural)]
pub enum Sensitivity {
    Public,
    Private,
    SecretRefOnly,
}

/// Query parameters for memory retrieval.
#[derive(Debug, Clone, Default)]
pub struct MemoryQuery {
    pub partition: Option<String>,
    pub kind: Option<MemoryKind>,
    pub tags: Vec<String>,
    pub text_search: Option<String>,
    pub limit: usize,
    pub offset: usize,
}

/// Paginated memory query result.
#[derive(Debug, Clone)]
pub struct MemoryPage {
    pub items: Vec<MemoryItem>,
    pub total: u64,
    pub has_more: bool,
}

impl MemoryItem {
    /// A new memory, public and of the system, with an identifier of its own.
    pub fn new(partition: String, kind: MemoryKind, content: String) -> (r: MemoryItem)
        ensures
            r.partition == partition,
            r.kind == kind,
            r.content == content,
            r.tags@ == Seq::<String>::empty(),
            r.source == MemorySource::System,
            r.sensitivity == Sensitivity::Public,
            r.expires_at is None,
            r.metadata@ == JsonTree::Null,
    {
        MemoryItem {
            id: new_id(),
            partition,
            kind,
            content,
            tags: Vec::new(),
            source: MemorySource::System,
            sensitivity: Sensitivity::Public,
            created_at: now(),
            expires_at: None,
            metadata: Json::Null,
        }
    }

    pub fn with_tags(self, tags: Vec<String>) -> (r: MemoryItem)
        ensures
            r == (MemoryItem { tags, ..self }),
    {
        let mut it = self;
        it.tags = tags;
        it
    }

    pub fn with_source(self, source: MemorySource) -> (r: MemoryItem)
        ensures
            r == (MemoryItem { source, ..self }),
    {
        let mut it = self;
        it.source = source;
        it
    }

    pub fn with_ttl(self, expires_at: Timestamp) -> (r: MemoryItem)
        ensures
            r == (MemoryItem { expires_at: Some(expires_at), ..self }),
    {
        let mut it = self;
        it.expires_at = Some(expires_at);
        it
    }
}

/// The kind of memory that a word stands for.
pub open spec fn kind_named(s: Seq<char>) -> Option<MemoryKind> {
    if s == "message"@ {
        Some(MemoryKind::Message)
    } else if s == "summary"@ {
        Some(MemoryKind::Summary)
    } else if s == "fact"@ {
        Some(MemoryKind::Fact)
    } else if s == "artifact"@ {
        Some(MemoryKind::Artifact)
    } else if s == "link"@ {
        Some(MemoryKind::Link)
    } else if s == "tool_result"@ {
        Some(MemoryKind::ToolResult)
    } else {
        None
    }
}

impl MemoryKind {
    /// The word for a kind of memory.
    pub open spec fn word(self) -> Seq<char> {
        match self {
            MemoryKind::Message => "message"@,
            MemoryKind::Summary => "summary"@,
            MemoryKind::Fact => "fact"@,
            MemoryKind::Artifact => "artifact"@,
            MemoryKind::Link => "link"@,
            MemoryKind::ToolResult => "tool_result"@,
        }
    }

    /// The word for a kind of memory.
    pub fn as_str(self) -> (r: &'static str)
        ensures
            r@ == self.word(),
    {
        match self {
            MemoryKind::Message => "message",
            MemoryKind::Summary => "summary",
            MemoryKind::Fact => "fact",
            MemoryKind::Artifact => "artifact",
            MemoryKind::Link => "link",
            MemoryKind::ToolResult => "tool_result",
        }
    }

    /// The kind of memory that a word stands for.
    pub fn from_word(s: &str) -> (r: Option<MemoryKind>)
        ensures
            r == kind_named(s@),
    {
        if same(s, "message") {
            Some(MemoryKind::Message)
        } else if same(s, "summary") {
            Some(MemoryKind::Summary)
        } else if same(s, "fact") {
            Some(MemoryKind::Fact)
        } else if same(s, "artifact") {
            Some(MemoryKind::Artifact)
        } else if same(s, "link") {
            Some(MemoryKind::Link)
        } else if same(s, "tool_result") {
            Some(MemoryKind::ToolResult)
        } else {
            None
        }
    }
}

/// The word for a kind of memory stands for it.
pub proof fn kind_named_reads_back(value: MemoryKind)
    ensures
        kind_named(value.word()) == Some(value),
{
    reveal_strlit("message");
    reveal_strlit("summary");
    reveal_strlit("fact");
    reveal_strlit("artifact");
    reveal_strlit("link");
    reveal_strlit("tool_result");
    assert("message"@.len() == 7 && "message"@[0] == 'm' && "message"@[1] == 'e');
    assert("summary"@.len() == 7 && "summary"@[0] == 's' && "summary"@[1] == 'u');
    assert("fact"@.len() == 4 && "fact"@[0] == 'f' && "fact"@[1] == 'a');
    assert("artifact"@.len() == 8 && "artifact"@[0] == 'a' && "artifact"@[1] == 'r');
    assert("link"@.len() == 4 && "link"@[0] == 'l' && "link"@[1] == 'i');
    assert("tool_result"@.len() == 11 && "tool_result"@[0] == 't' && "tool_result"@[1] == 'o');
}

/// The source of a memory that a word stands for.
pub open spec fn source_named(s: Seq<char>) -> Option<MemorySource> {
    if s == "discord"@ {
        Some(MemorySource::Discord)
    } else if s == "cron"@ {
        Some(MemorySource::Cron)
    } else if s == "a2a"@ {
        Some(MemorySource::A2a)
    } else if s == "tool"@ {
        Some(MemorySource::Tool)
    } else if s == "agent"@ {
        Some(MemorySource::Agent)
    } else if s == "system"@ {
        Some(MemorySource::System)
    } else {
        None
    }
}

impl MemorySource {
    /// The word for a source of a memory.
    pub open spec fn word(self) -> Seq<char> {
        match self {
            MemorySource::Discord => "discord"@,
            MemorySource::Cron => "cron"@,
            MemorySource::A2a => "a2a"@,
            MemorySource::Tool => "tool"@,
            MemorySource::Agent => "agent"@,
            MemorySource::System => "system"@,
        }
    }

    /// The word for a source of a memory.
    pub fn as_str(self) -> (r: &'static str)
        ensures
            r@ == self.word(),
    {
        match self {
            MemorySource::Discord => "discord",
            MemorySource::Cron => "cron",
            MemorySource::A2a => "a2a",
            MemorySource::Tool => "tool",
            MemorySource::Agent => "agent",
            MemorySource::System => "system",
        }
    }

    /// The source of a memory that a word stands for.
    pub fn from_word(s: &str) -> (r: Option<MemorySource>)
        ensures
            r == source_named(s@),
    {
        if same(s, "discord") {
            Some(MemorySource::Discord)
        } else if same(s, "cron") {
            Some(MemorySource::Cron)
        } else if same(s, "a2a") {
            Some(MemorySource::A2a)
        } else if same(s, "tool") {
            Some(MemorySource::Tool)
        } else if same(s, "agent") {
            Some(MemorySource::Agent)
        } else if same(s, "system") {
            Some(MemorySource::System)
        } else {
            None
        }
    }
}

/// The word for a source of a memory stands for it.
pub proof fn source_named_reads_back(value: MemorySource)
    ensures
        source_named(value.word()) == Some(value),
{
    reveal_strlit("discord");
    reveal_strlit("cron");
    reveal_strlit("a2a");
    reveal_strlit("tool");
    reveal_strlit("agent");
    reveal_strlit("system");
    assert("discord"@.len() == 7 && "discord"@[0] == 'd' && "discord"@[1] == 'i');
    assert("cron"@.len() == 4 && "cron"@[0] == 'c' && "cron"@[1] == 'r');
    assert("a2a"@.len() == 3 && "a2a"@[0] == 'a' && "a2a"@[1] == '2');
    assert("tool"@.len() == 4 && "tool"@[0] == 't' && "tool"@[1] == 'o');
    assert("agent"@.len() == 5 && "agent"@[0] == 'a' && "agent"@[1] == 'g');
    assert("system"@.len() == 6 && "system"@[0] == 's' && "system"@[1] == 'y');
}

/// The degree of sensitivity that a word stands for.
pub open spec fn sensitivity_named(s: Seq<char>) -> Option<Sensitivity> {
    if s == "public"@ {
        Some(Sensitivity::Public)
    } else if s == "private"@ {
        Some(Sensitivity::Private)
    } else if s == "secret_ref_only"@ {
        Some(Sensitivity::SecretRefOnly)
    } else {
        None
    }
}

impl Sensitivity {
    /// The word for a degree of sensitivity.
    pub open spec fn word(self) -> Seq<char> {
        match self {
            Sensitivity::Public => "public"@,
            Sensitivity::Private => "private"@,
            Sensitivity::SecretRefOnly => "secret_ref_only"@,
        }
    }

    /// The word for a degree of sensitivity.
    pub fn as_str(self) -> (r: &'static str)
        ensures
            r@ == self.word(),
    {
        match self {
            Sensitivity::Public => "public",
            Sensitivity::Private => "private",
            Sensitivity::SecretRefOnly => "secret_ref_only",
        }
    }

    /// The degree of sensitivity that a word stands for.
    pub fn from_word(s: &str) -> (r: Option<Sensitivity>)
        ensures
            r == sensitivity_named(s@),
    {
        if same(s, "public") {
            Some(Sensitivity::Public)
        } else if same(s, "private") {
            Some(Sensitivity::Private)
        } else if same(s, "secret_ref_only") {
            Some(Sensitivity::SecretRefOnly)
        } else {
            None
        }
    }
}

/// The word for a degree of sensitivity stands for it.
pub proof fn sensitivity_named_reads_back(value: Sensitivity)
    ensures
        sensitivity_named(value.word()) == Some(value),
{
    reveal_strlit("public");
    reveal_strlit("private");
    reveal_strlit("secret_ref_only");
    assert("public"@.len() == 6 && "public"@[0] == 'p' && "public"@[1] == 'u');
    assert("private"@.len() == 7 && "private"@[0] == 'p' && "private"@[1] == 'r');
    assert("secret_ref_only"@.len() == 15 && "secret_ref_only"@[0] == 's' && "secret_ref_only"@[1] == 'e');
}

/// What a memory holds.
#[verifier::ext_equal]
pub struct MemoryView {
    pub id: MemoryId,
    pub partition: Seq<char>,
    pub kind: MemoryKind,
    pub content: Seq<char>,
    pub tags: Seq<Seq<char>>,
    pub source: MemorySource,
    pub sensitivity: Sensitivity,
    pub created_at: Timestamp,
    pub expires_at: Option<Timestamp>,
    pub metadata: JsonTree,
}

impl View for MemoryItem {
    type V = MemoryView;

    open spec fn view(&self) -> MemoryView {
        MemoryView {
            id: self.id,
            partition: self.partition@,
            kind: self.kind,
            content: self.content@,
            tags: views(self.tags@),
            source: self.source,
            sensitivity: self.sensitivity,
            created_at: self.created_at,
            expires_at: self.expires_at,
            metadata: self.metadata@,
        }
    }
}

/// What the memories of a list hold.
pub open spec fn memory_views(list: Seq<MemoryItem>) -> Seq<MemoryView> {
    Seq::new(list.len(), |i: int| list[i]@)
}

/// The words for kinds, sources and degrees of sensitivity, as they are stored.
pub proof fn stored_words(kind: MemoryKind, source: MemorySource, sensitivity: Sensitivity)
    ensures
        kind.word() == (match kind {
            MemoryKind::Message => "message"@,
            MemoryKind::Summary => "summary"@,
            MemoryKind::Fact => "fact"@,
            MemoryKind::Artifact => "artifact"@,
            MemoryKind::Link => "link"@,
            MemoryKind::ToolResult => "tool_result"@,
        }),
        source.word() == (match source {
            MemorySource::Discord => "discord"@,
            MemorySource::Cron => "cron"@,
            MemorySource::A2a => "a2a"@,
            MemorySource::Tool => "tool"@,
            MemorySource::Agent => "agent"@,
            MemorySource::System => "system"@,
        }),
        sensitivity.word() == (match sensitivity {
            Sensitivity::Public => "public"@,
            Sensitivity::Private => "private"@,
            Sensitivity::SecretRefOnly => "secret_ref_only"@,
        }),
{
}

/// Only a kind's own word names it.
pub proof fn other_words_name_nothing(s: Seq<char>)
    ensures
        kind_named(s) matches Some(kind) ==> kind.word() == s,
        source_named(s) matches Some(source) ==> source.word() == s,
        sensitivity_named(s) matches Some(sensitivity) ==> sensitivity.word() == s,
{
}

/// Memories that are told alike are the same in all that they hold.
pub proof fn memories_are_told_whole(a: MemoryItem, b: MemoryItem)
    requires
        a@ == b@,
    ensures
        a.id == b.id,
        a.partition@ == b.partition@,
        a.kind == b.kind,
        a.content@ == b.content@,
        views(a.tags@) == views(b.tags@),
        a.source == b.source,
        a.sensitivity == b.sensitivity,
        a.created_at == b.created_at,
        a.expires_at == b.expires_at,
        a.metadata@ == b.metadata@,
{
}

} // verus!

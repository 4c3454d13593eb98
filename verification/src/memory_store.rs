//! The store of memories: who may read what, how a query is put to the database, and what comes
//! back.

use vstd::prelude::*;
use crate::error::{InfraError, NeuromancerError, PolicyError};
use crate::json::{
    compact, compact_text, first_read, is_plain, is_unescaped, parse, quoted, read_first,
    read_text, read_texts, text_read, texts_read, texts_text, value_read, write_text, write_texts,
    Json, JsonTree,
};
use crate::memory::{
    kind_named, kind_named_reads_back, memory_views, sensitivity_named,
    sensitivity_named_reads_back, source_named, source_named_reads_back, MemoryItem, MemoryKind,
    MemoryPage, MemoryQuery, MemorySource, MemoryView, Sensitivity,
};
use crate::text::{
    cat, cat3, chars_of, copy_list, decimal, join, joined, list_has, opt_view, string_of,
    to_decimal, views,
};
use crate::time::{
    id_read, id_text, id_to_text, is_common, read_id, read_time, time_read, time_text, write_time,
    Timestamp,
};
use crate::tool::AgentContext;

verus! {

// ---- access ------------------------------------------------------------------------------

/// The agent may use a partition.
pub open spec fn may_use(ctx: AgentContext, partition: Seq<char>) -> bool {
    views(ctx.allowed_memory_partitions@).contains(partition)
}

/// The agent is told that it may not use a partition.
pub open spec fn is_denied(e: NeuromancerError, ctx: AgentContext, partition: Seq<char>) -> bool {
    e matches NeuromancerError::Policy(PolicyError::PartitionAccessDenied {
        agent_id,
        partition: p,
    }) && agent_id == ctx.agent_id && p@ == partition
}

/// Check that the agent is allowed to access the given partition.
pub fn check_partition_access(ctx: &AgentContext, partition: &str) -> (r: Result<
    (),
    NeuromancerError,
>)
    ensures
        match r {
            Ok(()) => may_use(*ctx, partition@),
            Err(e) => !may_use(*ctx, partition@) && is_denied(e, *ctx, partition@),
        },
{
    if list_has(&ctx.allowed_memory_partitions, partition) {
        return Ok(());
    }
    Err(
        NeuromancerError::Policy(
            PolicyError::PartitionAccessDenied {
                agent_id: ctx.agent_id.clone(),
                partition: partition.to_owned(),
            },
        ),
    )
}

// ---- rows --------------------------------------------------------------------------------

/// A memory as the database keeps it.
#[derive(Debug)]
pub struct MemoryRow {
    pub id: String,
    pub partition: String,
    pub kind: String,
    pub content: String,
    pub tags: String,
    pub source: String,
    pub sensitivity: String,
    pub created_at: String,
    pub expires_at: Option<String>,
    pub metadata: String,
}

/// What the database keeps of a memory.
#[verifier::ext_equal]
pub struct RowView {
    pub id: Seq<char>,
    pub partition: Seq<char>,
    pub kind: Seq<char>,
    pub content: Seq<char>,
    pub tags: Seq<char>,
    pub source: Seq<char>,
    pub sensitivity: Seq<char>,
    pub created_at: Seq<char>,
    pub expires_at: Option<Seq<char>>,
    pub metadata: Seq<char>,
}

impl View for MemoryRow {
    type V = RowView;

    open spec fn view(&self) -> RowView {
        RowView {
            id: self.id@,
            partition: self.partition@,
            kind: self.kind@,
            content: self.content@,
            tags: self.tags@,
            source: self.source@,
            sensitivity: self.sensitivity@,
            created_at: self.created_at@,
            expires_at: opt_view(self.expires_at),
            metadata: self.metadata@,
        }
    }
}

/// The row of a memory.
pub open spec fn row_of(item: MemoryView) -> RowView {
    RowView {
        id: id_text(item.id),
        partition: item.partition,
        kind: item.kind.word(),
        content: item.content,
        tags: texts_text(item.tags),
        source: item.source.word(),
        sensitivity: item.sensitivity.word(),
        created_at: time_text(item.created_at),
        expires_at: match item.expires_at {
            Some(t) => Some(time_text(t)),
            None => None,
        },
        metadata: compact_text(item.metadata),
    }
}

/// The word that a column holds, once what is escaped in it is read.
pub open spec fn spelled(column: Seq<char>) -> Seq<char> {
    match first_read(quoted(column)) {
        Ok(found) => found.0,
        Err(_) => Seq::empty(),
    }
}

/// What is wrong with a column that holds one of some words, if anything is.
pub open spec fn word_fault(
    what: Seq<char>,
    column: Seq<char>,
    expected: Seq<char>,
    known: bool,
) -> Option<Seq<char>> {
    let head = "invalid "@ + what + " '"@ + column + "': "@;
    match first_read(quoted(column)) {
        Err(e) => Some(head + e),
        Ok(found) => if !known {
            Some(
                head + "unknown variant `"@ + found.0 + "`, expected one of "@ + expected
                    + " at line 1 column "@ + decimal(found.1),
            )
        } else {
            match text_read(quoted(column)) {
                Err(e) => Some(head + e),
                Ok(_) => None,
            }
        },
    }
}

fn fault_head(what: &str, column: &str) -> (r: String)
    ensures
        r@ == "invalid "@ + what@ + " '"@ + column@ + "': "@,
{
    let mut text = cat3("invalid ", what, " '");
    text.append(column);
    text.append("': ");
    text
}

fn in_quotes(s: &str) -> (r: String)
    ensures
        r@ == quoted(s@),
{
    let r = cat3("\"", s, "\"");
    proof {
        reveal_strlit("\"");
        assert("\""@ =~= seq!['"']);
    }
    r
}

/// The word that a column holds, with where it ends.
fn spell(what: &str, column: &str) -> (r: Result<(String, usize), String>)
    ensures
        match (first_read(quoted(column@)), r) {
            (Ok(found), Ok(pair)) => pair.0@ == found.0 && pair.1 == found.1,
            (Err(e), Err(s)) => s@ == "invalid "@ + what@ + " '"@ + column@ + "': "@ + e,
            _ => false,
        },
{
    match read_first(in_quotes(column).as_str()) {
        Ok(pair) => Ok(pair),
        Err(e) => {
            let mut text = fault_head(what, column);
            text.append(e.as_str());
            Err(text)
        },
    }
}

fn say_unknown_word(what: &str, column: &str, word: &str, expected: &str, end: usize) -> (r: String)
    ensures
        r@ == "invalid "@ + what@ + " '"@ + column@ + "': "@ + "unknown variant `"@ + word@
            + "`, expected one of "@ + expected@ + " at line 1 column "@ + decimal(end as nat),
{
    let mut text = fault_head(what, column);
    text.append("unknown variant `");
    text.append(word);
    text.append("`, expected one of ");
    text.append(expected);
    text.append(" at line 1 column ");
    text.append(to_decimal(end as u64).as_str());
    text
}

/// Nothing follows the word in a column.
fn check_end(what: &str, column: &str) -> (r: Result<(), String>)
    ensures
        match (text_read(quoted(column@)), r) {
            (Ok(_), Ok(())) => true,
            (Err(e), Err(s)) => s@ == "invalid "@ + what@ + " '"@ + column@ + "': "@ + e,
            _ => false,
        },
{
    match read_text(in_quotes(column).as_str()) {
        Ok(_) => Ok(()),
        Err(e) => {
            let mut text = fault_head(what, column);
            text.append(e.as_str());
            Err(text)
        },
    }
}

fn read_kind(column: &str) -> (r: Result<MemoryKind, String>)
    ensures
        match (
            word_fault("kind"@, column@, kind_words(), kind_named(spelled(column@)) is Some),
            r,
        ) {
            (None, Ok(kind)) => kind_named(spelled(column@)) == Some(kind),
            (Some(fault), Err(e)) => e@ == fault,
            _ => false,
        },
{
    let (word, end) = match spell("kind", column) {
        Ok(found) => found,
        Err(e) => {
            return Err(e);
        },
    };
    match MemoryKind::from_word(word.as_str()) {
        None => Err(
            say_unknown_word(
                "kind",
                column,
                word.as_str(),
                "`message`, `summary`, `fact`, `artifact`, `link`, `tool_result`",
                end,
            ),
        ),
        Some(kind) => match check_end("kind", column) {
            Ok(()) => Ok(kind),
            Err(e) => Err(e),
        },
    }
}

fn read_source(column: &str) -> (r: Result<MemorySource, String>)
    ensures
        match (
            word_fault("source"@, column@, source_words(), source_named(spelled(column@)) is Some),
            r,
        ) {
            (None, Ok(source)) => source_named(spelled(column@)) == Some(source),
            (Some(fault), Err(e)) => e@ == fault,
            _ => false,
        },
{
    let (word, end) = match spell("source", column) {
        Ok(found) => found,
        Err(e) => {
            return Err(e);
        },
    };
    match MemorySource::from_word(word.as_str()) {
        None => Err(
            say_unknown_word(
                "source",
                column,
                word.as_str(),
                "`discord`, `cron`, `a2a`, `tool`, `agent`, `system`",
                end,
            ),
        ),
        Some(source) => match check_end("source", column) {
            Ok(()) => Ok(source),
            Err(e) => Err(e),
        },
    }
}

fn read_sensitivity(column: &str) -> (r: Result<Sensitivity, String>)
    ensures
        match (
            word_fault(
                "sensitivity"@,
                column@,
                sensitivity_words(),
                sensitivity_named(spelled(column@)) is Some,
            ),
            r,
        ) {
            (None, Ok(sensitivity)) => sensitivity_named(spelled(column@)) == Some(sensitivity),
            (Some(fault), Err(e)) => e@ == fault,
            _ => false,
        },
{
    let (word, end) = match spell("sensitivity", column) {
        Ok(found) => found,
        Err(e) => {
            return Err(e);
        },
    };
    match Sensitivity::from_word(word.as_str()) {
        None => Err(
            say_unknown_word(
                "sensitivity",
                column,
                word.as_str(),
                "`public`, `private`, `secret_ref_only`",
                end,
            ),
        ),
        Some(sensitivity) => match check_end("sensitivity", column) {
            Ok(()) => Ok(sensitivity),
            Err(e) => Err(e),
        },
    }
}

/// The words for kinds.
pub open spec fn kind_words() -> Seq<char> {
    "`message`, `summary`, `fact`, `artifact`, `link`, `tool_result`"@
}

/// The words for sources.
pub open spec fn source_words() -> Seq<char> {
    "`discord`, `cron`, `a2a`, `tool`, `agent`, `system`"@
}

/// The words for degrees of sensitivity.
pub open spec fn sensitivity_words() -> Seq<char> {
    "`public`, `private`, `secret_ref_only`"@
}

/// A word as a column holds it: as it is printed, without the quotes around it.
fn word_column(word: &str) -> (r: String)
    requires
        is_unescaped(word@),
    ensures
        r@ == word@,
        spelled(r@) == word@,
        first_read(quoted(r@)) is Ok,
        text_read(quoted(r@)) is Ok,
{
    let written = write_text(word);
    let chars = chars_of(written.as_str());
    let r = string_of(&chars, 1, chars.len() - 1);
    assert(r@ =~= word@);
    r
}

/// The memory that a row holds, or what is wrong with the row.
pub open spec fn item_of(row: RowView) -> Result<MemoryView, Seq<char>> {
    let kind = kind_named(spelled(row.kind));
    let source = source_named(spelled(row.source));
    let sensitivity = sensitivity_named(spelled(row.sensitivity));
    match id_read(row.id) {
        Err(e) => Err("invalid uuid: "@ + e),
        Ok(id) => match word_fault("kind"@, row.kind, kind_words(), kind is Some) {
            Some(e) => Err(e),
            None => match texts_read(row.tags) {
                Err(e) => Err("invalid tags: "@ + e),
                Ok(tags) => match word_fault("source"@, row.source, source_words(), source is Some) {
                    Some(e) => Err(e),
                    None => match word_fault(
                        "sensitivity"@,
                        row.sensitivity,
                        sensitivity_words(),
                        sensitivity is Some,
                    ) {
                        Some(e) => Err(e),
                        None => match time_read(row.created_at) {
                            Err(e) => Err("invalid created_at: "@ + e),
                            Ok(created_at) => match expiry_of(row.expires_at) {
                                Err(e) => Err(e),
                                Ok(expires_at) => Ok(
                                    MemoryView {
                                        id,
                                        partition: row.partition,
                                        kind: kind->0,
                                        content: row.content,
                                        tags,
                                        source: source->0,
                                        sensitivity: sensitivity->0,
                                        created_at,
                                        expires_at,
                                        metadata: match value_read(row.metadata) {
                                            Ok(value) => value,
                                            Err(_) => JsonTree::Null,
                                        },
                                    },
                                ),
                            },
                        },
                    },
                },
            },
        },
    }
}

/// When a memory ends, if it does, or what is wrong with that.
pub open spec fn expiry_of(text: Option<Seq<char>>) -> Result<Option<Timestamp>, Seq<char>> {
    match text {
        None => Ok(None),
        Some(s) => match time_read(s) {
            Ok(t) => Ok(Some(t)),
            Err(e) => Err("invalid expires_at: "@ + e),
        },
    }
}

/// The words for kinds, sources and degrees of sensitivity stand in JSON as they are.
proof fn lemma_words_are_unescaped(kind: MemoryKind, source: MemorySource, sensitivity: Sensitivity)
    ensures
        is_unescaped(kind.word()),
        is_unescaped(source.word()),
        is_unescaped(sensitivity.word()),
{
    reveal_strlit("message");
    reveal_strlit("summary");
    reveal_strlit("fact");
    reveal_strlit("artifact");
    reveal_strlit("link");
    reveal_strlit("tool_result");
    reveal_strlit("discord");
    reveal_strlit("cron");
    reveal_strlit("a2a");
    reveal_strlit("tool");
    reveal_strlit("agent");
    reveal_strlit("system");
    reveal_strlit("public");
    reveal_strlit("private");
    reveal_strlit("secret_ref_only");
}

/// A memory whose row reads back: its times lie in years of four digits, and its metadata is a
/// plain document.
pub open spec fn reads_back(item: MemoryView) -> bool {
    &&& is_common(item.created_at)
    &&& item.expires_at matches Some(t) ==> is_common(t)
    &&& is_plain(item.metadata, 100)
}

impl MemoryRow {
    /// The row of a memory. The memory can be read back from it.
    pub fn from_item(item: &MemoryItem) -> (r: MemoryRow)
        ensures
            r@ == row_of(item@),
            reads_back(item@) ==> item_of(r@) == Ok::<MemoryView, Seq<char>>(item@),
    {
        let expires_at = match item.expires_at {
            Some(t) => Some(write_time(t)),
            None => None,
        };
        proof {
            lemma_words_are_unescaped(item.kind, item.source, item.sensitivity);
        }
        let r = MemoryRow {
            id: id_to_text(item.id),
            partition: item.partition.clone(),
            kind: word_column(item.kind.as_str()),
            content: item.content.clone(),
            tags: write_texts(&item.tags),
            source: word_column(item.source.as_str()),
            sensitivity: word_column(item.sensitivity.as_str()),
            created_at: write_time(item.created_at),
            expires_at,
            metadata: compact(&item.metadata),
        };
        proof {
            kind_named_reads_back(item.kind);
            source_named_reads_back(item.source);
            sensitivity_named_reads_back(item.sensitivity);
        }
        r
    }

    /// The memory that a row holds, or what is wrong with the row.
    pub fn to_memory_item(&self) -> (r: Result<MemoryItem, String>)
        ensures
            match r {
                Ok(item) => item_of(self@) == Ok::<MemoryView, Seq<char>>(item@),
                Err(e) => item_of(self@) == Err::<MemoryView, Seq<char>>(e@),
            },
    {
        let id = match read_id(self.id.as_str()) {
            Ok(id) => id,
            Err(e) => {
                return Err(cat("invalid uuid: ", e.as_str()));
            },
        };
        let kind = match read_kind(self.kind.as_str()) {
            Ok(kind) => kind,
            Err(e) => {
                return Err(e);
            },
        };
        let tags = match read_texts(self.tags.as_str()) {
            Ok(tags) => tags,
            Err(e) => {
                return Err(cat("invalid tags: ", e.as_str()));
            },
        };
        let source = match read_source(self.source.as_str()) {
            Ok(source) => source,
            Err(e) => {
                return Err(e);
            },
        };
        let sensitivity = match read_sensitivity(self.sensitivity.as_str()) {
            Ok(sensitivity) => sensitivity,
            Err(e) => {
                return Err(e);
            },
        };
        let created_at = match read_time(self.created_at.as_str()) {
            Ok(t) => t,
            Err(e) => {
                return Err(cat("invalid created_at: ", e.as_str()));
            },
        };
        let expires_at = match &self.expires_at {
            None => None,
            Some(s) => match read_time(s.as_str()) {
                Ok(t) => Some(t),
                Err(e) => {
                    return Err(cat("invalid expires_at: ", e.as_str()));
                },
            },
        };
        let metadata = match parse(self.metadata.as_str()) {
            Ok(value) => value,
            Err(_) => Json::Null,
        };
        Ok(
            MemoryItem {
                id,
                partition: self.partition.clone(),
                kind,
                content: self.content.clone(),
                tags,
                source,
                sensitivity,
                created_at,
                expires_at,
                metadata,
            },
        )
    }
}

// ---- queries -----------------------------------------------------------------------------

/// A query as it is put to the database: what the rows are counted and read by, with the values
/// for its question marks in order, and then how many rows are read after how many.
#[derive(Debug)]
pub struct QueryPlan {
    pub count_sql: String,
    pub data_sql: String,
    pub bind_values: Vec<String>,
    pub limit: usize,
    pub offset: usize,
}

/// So many question marks, with commas between them.
pub open spec fn marks(n: nat) -> Seq<char> {
    joined(Seq::new(n, |i: int| "?"@), ", "@)
}

/// The conditions that a query puts on rows.
pub open spec fn conditions(ctx: AgentContext, q: MemoryQuery) -> Seq<Seq<char>> {
    let first = match q.partition {
        Some(_) => "partition = ?"@,
        None => "partition IN ("@ + marks(ctx.allowed_memory_partitions@.len()) + ")"@,
    };
    let kind = match q.kind {
        Some(_) => seq!["kind = ?"@],
        None => Seq::empty(),
    };
    let search = match q.text_search {
        Some(_) => seq!["content LIKE ?"@],
        None => Seq::empty(),
    };
    seq![first] + kind + search
}

/// The values for the question marks of the conditions.
pub open spec fn bind_views(ctx: AgentContext, q: MemoryQuery) -> Seq<Seq<char>> {
    let first = match q.partition {
        Some(p) => seq![p@],
        None => views(ctx.allowed_memory_partitions@),
    };
    let kind = match q.kind {
        Some(k) => seq![k.word()],
        None => Seq::empty(),
    };
    let search = match q.text_search {
        Some(t) => seq!["%"@ + t@ + "%"@],
        None => Seq::empty(),
    };
    first + kind + search
}

/// How many rows a query asks for; a hundred where it does not say.
pub open spec fn page_limit(q: MemoryQuery) -> int {
    if q.limit == 0 {
        100
    } else {
        q.limit as int
    }
}

/// The plan puts the query to the database.
pub open spec fn plans(plan: QueryPlan, ctx: AgentContext, q: MemoryQuery) -> bool {
    let clause = "WHERE "@ + joined(conditions(ctx, q), " AND "@);
    &&& plan.count_sql@ == "SELECT COUNT(*) as cnt FROM memory_items "@ + clause
    &&& plan.data_sql@
        == "SELECT id, partition, kind, content, tags, source, sensitivity, created_at, expires_at, metadata FROM memory_items "@
        + clause + " ORDER BY created_at DESC LIMIT ? OFFSET ?"@
    &&& views(plan.bind_values@) == bind_views(ctx, q)
    &&& plan.limit == page_limit(q)
    &&& plan.offset == q.offset
}

fn question_marks(n: usize) -> (r: String)
    ensures
        r@ == marks(n as nat),
{
    let mut list: Vec<String> = Vec::new();
    let mut i: usize = 0;
    while i < n
        invariant
            i <= n,
            list@.len() == i,
            forall|k: int| 0 <= k < i ==> (#[trigger] list@[k])@ == "?"@,
        decreases n - i,
    {
        list.push("?".to_owned());
        i = i + 1;
    }
    assert(views(list@) =~= Seq::new(n as nat, |i: int| "?"@));
    join(&list, ", ")
}

fn put_text(list: &mut Vec<String>, s: String)
    ensures
        views(final(list)@) == views(old(list)@).push(s@),
{
    let ghost before = views(list@);
    list.push(s);
    assert(views(list@) =~= before.push(s@));
}

/// How a query is put to the database. An agent that may use no partition at all gets nothing,
/// without a question; one that asks for a partition that it may not use is refused.
pub fn plan_query(ctx: &AgentContext, q: &MemoryQuery) -> (r: Result<
    Option<QueryPlan>,
    NeuromancerError,
>)
    ensures
        match r {
            Ok(Some(plan)) => {
                &&& plans(plan, *ctx, *q)
                &&& q.partition matches Some(p) ==> may_use(*ctx, p@)
                &&& q.partition is None ==> ctx.allowed_memory_partitions@.len() > 0
            },
            Ok(None) => q.partition is None && ctx.allowed_memory_partitions@.len() == 0,
            Err(e) => q.partition matches Some(p) && !may_use(*ctx, p@) && is_denied(e, *ctx, p@),
        },
{
    let mut clauses: Vec<String> = Vec::new();
    let mut bind_values: Vec<String> = Vec::new();
    proof {
        assert(views(clauses@) =~= Seq::empty());
        assert(views(bind_values@) =~= Seq::empty());
    }
    match &q.partition {
        Some(partition) => {
            match check_partition_access(ctx, partition.as_str()) {
                Ok(()) => {},
                Err(e) => {
                    return Err(e);
                },
            }
            put_text(&mut clauses, "partition = ?".to_owned());
            put_text(&mut bind_values, partition.clone());
            assert(views(bind_values@) =~= seq![partition@]);
        },
        None => {
            if ctx.allowed_memory_partitions.len() == 0 {
                return Ok(None);
            }
            let list = question_marks(ctx.allowed_memory_partitions.len());
            put_text(&mut clauses, cat3("partition IN (", list.as_str(), ")"));
            bind_values = copy_list(&ctx.allowed_memory_partitions);
        },
    }
    let ghost first = views(clauses@);
    let ghost values = views(bind_values@);
    if let Some(kind) = &q.kind {
        put_text(&mut clauses, "kind = ?".to_owned());
        put_text(&mut bind_values, kind.as_str().to_owned());
    }
    if let Some(text) = &q.text_search {
        put_text(&mut clauses, "content LIKE ?".to_owned());
        put_text(&mut bind_values, cat3("%", text.as_str(), "%"));
    }
    proof {
        assert(views(clauses@) =~= conditions(*ctx, *q));
        assert(views(bind_values@) =~= bind_views(*ctx, *q));
    }
    let clause = cat("WHERE ", join(&clauses, " AND ").as_str());
    let count_sql = cat("SELECT COUNT(*) as cnt FROM memory_items ", clause.as_str());
    let data_sql = cat3(
        "SELECT id, partition, kind, content, tags, source, sensitivity, created_at, expires_at, metadata FROM memory_items ",
        clause.as_str(),
        " ORDER BY created_at DESC LIMIT ? OFFSET ?",
    );
    let limit: usize = if q.limit == 0 {
        100
    } else {
        q.limit
    };
    Ok(Some(QueryPlan { count_sql, data_sql, bind_values, limit, offset: q.offset }))
}

/// A memory has one of the tags that are asked for; where none is, it has.
pub open spec fn tagged(item: MemoryView, tags: Seq<Seq<char>>) -> bool {
    tags.len() == 0 || exists|i: int| 0 <= i < tags.len() && item.tags.contains(#[trigger] tags[i])
}

/// The memories in rows that can be read and have one of the tags that are asked for.
pub open spec fn found(rows: Seq<MemoryRow>, tags: Seq<Seq<char>>) -> Seq<MemoryView>
    decreases rows.len(),
{
    if rows.len() == 0 {
        Seq::empty()
    } else {
        let before = found(rows.drop_last(), tags);
        match item_of(rows.last()@) {
            Ok(item) if tagged(item, tags) => before.push(item),
            _ => before,
        }
    }
}

fn is_tagged(item: &MemoryItem, tags: &Vec<String>) -> (r: bool)
    ensures
        r == tagged(item@, views(tags@)),
{
    if tags.len() == 0 {
        return true;
    }
    let mut i: usize = 0;
    while i < tags.len()
        invariant
            i <= tags@.len(),
            forall|k: int| 0 <= k < i ==> !item@.tags.contains(#[trigger] views(tags@)[k]),
        decreases tags@.len() - i,
    {
        if list_has(&item.tags, tags[i].as_str()) {
            assert(item@.tags.contains(views(tags@)[i as int]));
            return true;
        }
        assert(views(tags@)[i as int] == tags@[i as int]@);
        i = i + 1;
    }
    false
}

/// A page of memories, given the rows that were read and how many there are in all.
pub fn page_from(rows: Vec<MemoryRow>, total: u64, q: &MemoryQuery) -> (r: MemoryPage)
    requires
        q.offset + page_limit(*q) <= usize::MAX,
    ensures
        memory_views(r.items@) == found(rows@, views(q.tags@)),
        r.total == total,
        r.has_more == (q.offset + page_limit(*q) < total),
{
    let mut items: Vec<MemoryItem> = Vec::new();
    let mut i: usize = 0;
    proof {
        assert(rows@.take(0) =~= Seq::empty());
        assert(memory_views(items@) =~= Seq::empty());
    }
    while i < rows.len()
        invariant
            i <= rows@.len(),
            memory_views(items@) == found(rows@.take(i as int), views(q.tags@)),
        decreases rows@.len() - i,
    {
        proof {
            assert(rows@.take(i + 1).drop_last() =~= rows@.take(i as int));
            assert(rows@.take(i + 1).last() == rows@[i as int]);
        }
        match rows[i].to_memory_item() {
            Ok(item) => {
                if is_tagged(&item, &q.tags) {
                    let ghost before = memory_views(items@);
                    items.push(item);
                    assert(memory_views(items@) =~= before.push(item@));
                }
            },
            Err(_) => {},
        }
        i = i + 1;
    }
    assert(rows@.take(i as int) =~= rows@);
    let limit: usize = if q.limit == 0 {
        100
    } else {
        q.limit
    };
    MemoryPage { items, total, has_more: ((q.offset + limit) as u64) < total }
}

/// The page of an agent that may use no partition.
pub fn empty_page() -> (r: MemoryPage)
    ensures
        r.items@.len() == 0,
        r.total == 0,
        !r.has_more,
{
    MemoryPage { items: Vec::new(), total: 0, has_more: false }
}

// ---- single memories ---------------------------------------------------------------------

/// What an agent gets that asks for one memory, given its row if there is one.
pub fn read_item(ctx: &AgentContext, row: Option<MemoryRow>) -> (r: Result<
    Option<MemoryItem>,
    NeuromancerError,
>)
    ensures
        match (row, r) {
            (None, Ok(None)) => true,
            (Some(found), Ok(Some(item))) => may_use(*ctx, found.partition@) && item_of(found@)
                == Ok::<MemoryView, Seq<char>>(item@),
            (Some(found), Err(e)) => if may_use(*ctx, found.partition@) {
                e matches NeuromancerError::Infra(InfraError::Database(s)) && item_of(found@)
                    == Err::<MemoryView, Seq<char>>(s@)
            } else {
                is_denied(e, *ctx, found.partition@)
            },
            _ => false,
        },
{
    match row {
        None => Ok(None),
        Some(found) => {
            match check_partition_access(ctx, found.partition.as_str()) {
                Ok(()) => {},
                Err(e) => {
                    return Err(e);
                },
            }
            match found.to_memory_item() {
                Ok(item) => Ok(Some(item)),
                Err(e) => Err(NeuromancerError::Infra(InfraError::Database(e))),
            }
        },
    }
}

/// Whether an agent may delete a memory, given its partition if there is one. What is not there
/// may be deleted by anyone.
pub fn may_delete(ctx: &AgentContext, partition: &Option<String>) -> (r: Result<
    (),
    NeuromancerError,
>)
    ensures
        match (*partition, r) {
            (None, Ok(())) => true,
            (Some(p), Ok(())) => may_use(*ctx, p@),
            (Some(p), Err(e)) => !may_use(*ctx, p@) && is_denied(e, *ctx, p@),
            _ => false,
        },
{
    match partition {
        None => Ok(()),
        Some(p) => check_partition_access(ctx, p.as_str()),
    }
}

/// Each question mark of a query has its value: as many as there are conditions, or one for each
/// partition in place of the first.
pub proof fn marks_match_values(ctx: AgentContext, q: MemoryQuery)
    ensures
        q.partition is Some ==> bind_views(ctx, q).len() == conditions(ctx, q).len(),
        q.partition is None ==> bind_views(ctx, q).len() + 1 == conditions(ctx, q).len()
            + ctx.allowed_memory_partitions@.len(),
{
}

/// Whatever an agent asks for, the rows are looked for only in partitions that it may use.
pub proof fn queries_stay_in_allowed_partitions(ctx: AgentContext, q: MemoryQuery, i: int)
    requires
        q.partition matches Some(p) ==> may_use(ctx, p@),
        0 <= i < (if q.partition is Some {
            1
        } else {
            ctx.allowed_memory_partitions@.len() as int
        }),
    ensures
        may_use(ctx, bind_views(ctx, q)[i]),
{
    if q.partition is None {
        let allowed = views(ctx.allowed_memory_partitions@);
        assert(bind_views(ctx, q)[i] == allowed[i]);
        assert(allowed.contains(allowed[i]));
    }
}

/// Asking for tags never brings more memories than asking for none.
pub proof fn tags_only_narrow(rows: Seq<MemoryRow>, tags: Seq<Seq<char>>)
    ensures
        found(rows, tags).len() <= found(rows, Seq::empty()).len() <= rows.len(),
    decreases rows.len(),
{
    if rows.len() > 0 {
        tags_only_narrow(rows.drop_last(), tags);
    }
}

/// What is found in some rows and then in some more is found in all of them, in their order.
pub proof fn rows_are_read_in_order(
    before: Seq<MemoryRow>,
    after: Seq<MemoryRow>,
    tags: Seq<Seq<char>>,
)
    ensures
        found(before + after, tags) == found(before, tags) + found(after, tags),
    decreases after.len(),
{
    if after.len() == 0 {
        assert(before + after =~= before);
        assert(found(before, tags) + found(after, tags) =~= found(before, tags));
    } else {
        let all = before + after;
        assert(all.drop_last() =~= before + after.drop_last());
        assert(all.last() == after.last());
        rows_are_read_in_order(before, after.drop_last(), tags);
        assert(found(all, tags) =~= found(before, tags) + found(after, tags));
    }
}

/// Of one row that can be read the memory is found where no tag is asked for, or where it has any
/// of those that are, whichever of them it is; of a row that cannot be read nothing is.
pub proof fn any_tag_will_do(row: MemoryRow, tags: Seq<Seq<char>>)
    ensures
        match item_of(row@) {
            Ok(item) => found(seq![row], tags) == (if tags.len() == 0 || exists|i: int, j: int|
                0 <= i < item.tags.len() && 0 <= j < tags.len() && #[trigger] item.tags[i]
                    == #[trigger] tags[j] {
                seq![item]
            } else {
                Seq::empty()
            }),
            Err(_) => found(seq![row], tags) == Seq::<MemoryView>::empty(),
        },
{
    let rows = seq![row];
    assert(rows.drop_last() =~= Seq::empty());
    assert(rows.last() == row);
    assert(found(rows.drop_last(), tags) =~= Seq::empty());
    if item_of(row@) is Ok {
        let item = item_of(row@)->Ok_0;
        if exists|i: int, j: int|
            0 <= i < item.tags.len() && 0 <= j < tags.len() && #[trigger] item.tags[i]
                == #[trigger] tags[j] {
            let (i, j) = choose|i: int, j: int|
                0 <= i < item.tags.len() && 0 <= j < tags.len() && #[trigger] item.tags[i]
                    == #[trigger] tags[j];
            assert(item.tags.contains(tags[j]));
            assert(tagged(item, tags));
        } else if tags.len() > 0 {
            if tagged(item, tags) {
                let j = choose|j: int| 0 <= j < tags.len() && item.tags.contains(#[trigger] tags[j]);
                let i = choose|i: int| 0 <= i < item.tags.len() && item.tags[i] == tags[j];
                assert(item.tags[i] == tags[j]);
            }
        }
        assert(Seq::<MemoryView>::empty().push(item) =~= seq![item]);
    }
}

/// A memory that can be read and has one of the tags that are asked for is on the page.
pub proof fn tagged_memories_are_found(
    rows: Seq<MemoryRow>,
    tags: Seq<Seq<char>>,
    row: int,
    i: int,
    j: int,
)
    requires
        0 <= row < rows.len(),
        item_of(rows[row]@) is Ok,
        tags.len() == 0 || (0 <= i < item_of(rows[row]@)->Ok_0.tags.len() && 0 <= j < tags.len()
            && item_of(rows[row]@)->Ok_0.tags[i] == tags[j]),
    ensures
        found(rows, tags).contains(item_of(rows[row]@)->Ok_0),
    decreases rows.len(),
{
    let item = item_of(rows[row]@)->Ok_0;
    let front = rows.drop_last();
    let before = found(front, tags);
    if tags.len() > 0 {
        assert(item.tags.contains(tags[j]));
    }
    assert(tagged(item, tags));
    if row == rows.len() - 1 {
        assert(found(rows, tags)[before.len() as int] == item);
    } else {
        assert(front[row] == rows[row]);
        tagged_memories_are_found(front, tags, row, i, j);
        let n = choose|n: int| 0 <= n < before.len() && before[n] == item;
        assert(found(rows, tags)[n] == item);
    }
}

/// Each memory on the page is that of a row, and has one of the tags if any is asked for.
pub proof fn what_is_found_was_asked_for(
    rows: Seq<MemoryRow>,
    tags: Seq<Seq<char>>,
    n: int,
) -> (place: (int, int, int))
    requires
        0 <= n < found(rows, tags).len(),
    ensures
        0 <= place.0 < rows.len(),
        item_of(rows[place.0]@) == Ok::<MemoryView, Seq<char>>(found(rows, tags)[n]),
        tags.len() > 0 ==> 0 <= place.1 < found(rows, tags)[n].tags.len() && 0 <= place.2
            < tags.len() && found(rows, tags)[n].tags[place.1] == tags[place.2],
    decreases rows.len(),
{
    let front = rows.drop_last();
    let before = found(front, tags);
    if n < before.len() {
        let place = what_is_found_was_asked_for(front, tags, n);
        assert(front[place.0] == rows[place.0]);
        place
    } else {
        let item = found(rows, tags)[n];
        if tags.len() > 0 {
            let j = choose|j: int| 0 <= j < tags.len() && item.tags.contains(#[trigger] tags[j]);
            let i = choose|i: int| 0 <= i < item.tags.len() && item.tags[i] == tags[j];
            (rows.len() - 1, i, j)
        } else {
            (rows.len() - 1, 0, 0)
        }
    }
}

/// It does not matter in which order, or how often, the tags are asked for.
pub proof fn order_of_tags_does_not_matter(
    rows: Seq<MemoryRow>,
    tags: Seq<Seq<char>>,
    others: Seq<Seq<char>>,
)
    requires
        forall|t: Seq<char>| tags.contains(t) <==> others.contains(t),
    ensures
        found(rows, tags) == found(rows, others),
    decreases rows.len(),
{
    if tags.len() > 0 {
        assert(tags.contains(tags[0]));
    }
    if others.len() > 0 {
        assert(others.contains(others[0]));
    }
    if rows.len() > 0 {
        order_of_tags_does_not_matter(rows.drop_last(), tags, others);
        if item_of(rows.last()@) is Ok {
            let item = item_of(rows.last()@)->Ok_0;
            if tagged(item, tags) && tags.len() > 0 {
                let i = choose|i: int| 0 <= i < tags.len() && item.tags.contains(#[trigger] tags[i]);
                assert(tags.contains(tags[i]));
                let j = choose|j: int| 0 <= j < others.len() && others[j] == tags[i];
                assert(item.tags.contains(others[j]));
            }
            if tagged(item, others) && others.len() > 0 {
                let i = choose|i: int|
                    0 <= i < others.len() && item.tags.contains(#[trigger] others[i]);
                assert(others.contains(others[i]));
                let j = choose|j: int| 0 <= j < tags.len() && tags[j] == others[i];
                assert(item.tags.contains(tags[j]));
            }
        }
    }
}

/// To ask for one more tag, where some are asked for, takes no memory away.
pub proof fn one_more_tag_takes_nothing_away(
    rows: Seq<MemoryRow>,
    tags: Seq<Seq<char>>,
    tag: Seq<char>,
    n: int,
)
    requires
        tags.len() > 0,
        0 <= n < found(rows, tags).len(),
    ensures
        found(rows, tags.push(tag)).contains(found(rows, tags)[n]),
        found(rows, seq![tag] + tags).contains(found(rows, tags)[n]),
{
    let (row, i, j) = what_is_found_was_asked_for(rows, tags, n);
    assert(tags.push(tag)[j] == tags[j]);
    tagged_memories_are_found(rows, tags.push(tag), row, i, j);
    assert((seq![tag] + tags)[j + 1] == tags[j]);
    tagged_memories_are_found(rows, seq![tag] + tags, row, i, j + 1);
}

/// A query asks for one partition or for all that the agent may use, in their order, and then for
/// what else it names: the word of the kind, and the text anywhere in the content.
pub proof fn queries_ask_for_what_they_name(ctx: AgentContext, q: MemoryQuery)
    ensures
        q.partition matches Some(p) ==> conditions(ctx, q)[0] == "partition = ?"@ && bind_views(
            ctx,
            q,
        )[0] == p@,
        q.partition is None ==> forall|i: int|
            0 <= i < ctx.allowed_memory_partitions@.len() ==> (#[trigger] bind_views(ctx, q)[i])
                == ctx.allowed_memory_partitions@[i]@,
        q.kind matches Some(k) ==> conditions(ctx, q)[1] == "kind = ?"@ && bind_views(
            ctx,
            q,
        )[bind_views(ctx, q).len() - (if q.text_search is Some {
            2int
        } else {
            1int
        })] == (match k {
            MemoryKind::Message => "message"@,
            MemoryKind::Summary => "summary"@,
            MemoryKind::Fact => "fact"@,
            MemoryKind::Artifact => "artifact"@,
            MemoryKind::Link => "link"@,
            MemoryKind::ToolResult => "tool_result"@,
        }),
        q.text_search matches Some(t) ==> conditions(ctx, q).last() == "content LIKE ?"@
            && bind_views(ctx, q).last() == "%"@ + t@ + "%"@,
        conditions(ctx, q).len() == 1 + (if q.kind is Some {
            1int
        } else {
            0int
        }) + (if q.text_search is Some {
            1int
        } else {
            0int
        }),
{
}

proof fn lemma_marks(n: nat)
    requires
        n > 0,
    ensures
        marks(n).len() == 3 * n - 2,
        forall|i: int| 0 <= i < n ==> #[trigger] marks(n)[3 * i] == '?',
    decreases n,
{
    reveal_strlit("?");
    reveal_strlit(", ");
    let list = Seq::new(n, |i: int| "?"@);
    if n > 1 {
        let m = (n - 1) as nat;
        lemma_marks(m);
        assert(list.drop_last() =~= Seq::new(m, |i: int| "?"@));
        assert(marks(n) == marks(m) + ", "@ + "?"@);
        assert forall|i: int| 0 <= i < n implies #[trigger] marks(n)[3 * i] == '?' by {
            if i < m {
                assert(marks(m)[3 * i] == '?');
            }
        }
    } else {
        assert forall|i: int| 0 <= i < n implies #[trigger] marks(n)[3 * i] == '?' by {
            assert(i == 0);
        }
    }
}

/// Where a query names no partition, there is a question mark for each that the agent may use, and
/// no room for another.
pub proof fn all_partitions_have_their_marks(ctx: AgentContext, q: MemoryQuery)
    requires
        q.partition is None,
        ctx.allowed_memory_partitions@.len() > 0,
    ensures
        conditions(ctx, q)[0].take(14) == "partition IN ("@,
        conditions(ctx, q)[0].last() == ')',
        conditions(ctx, q)[0].len() == 13 + 3 * ctx.allowed_memory_partitions@.len(),
        forall|i: int|
            0 <= i < ctx.allowed_memory_partitions@.len() ==> #[trigger] conditions(
                ctx,
                q,
            )[0][14 + 3 * i] == '?',
{
    reveal_strlit("partition IN (");
    reveal_strlit(")");
    let n = ctx.allowed_memory_partitions@.len();
    lemma_marks(n);
    let first = "partition IN ("@ + marks(n) + ")"@;
    assert(conditions(ctx, q)[0] == first);
    assert(first.take(14) =~= "partition IN ("@);
    assert forall|i: int| 0 <= i < n implies #[trigger] conditions(ctx, q)[0][14 + 3 * i] == '?' by {
        assert(marks(n)[3 * i] == '?');
    }
}

/// A page is as long as the query says, or a hundred where it says nothing, and never empty.
pub proof fn pages_have_a_length(q: MemoryQuery)
    ensures
        page_limit(q) > 0,
        q.limit > 0 ==> page_limit(q) == q.limit,
        q.limit == 0 ==> page_limit(q) == 100,
{
}

/// What a row says of a memory as plain text is in the memory as it stands, and a row without an
/// expiry gives a memory without one.
pub proof fn rows_hold_their_memories(row: RowView)
    ensures
        item_of(row) matches Ok(item) ==> item.partition == row.partition && item.content
            == row.content && (item.expires_at is None <==> row.expires_at is None) && id_read(
            row.id,
        ) == Ok::<u128, Seq<char>>(item.id) && texts_read(row.tags) == Ok::<
            Seq<Seq<char>>,
            Seq<char>,
        >(item.tags) && time_read(row.created_at) == Ok::<Timestamp, Seq<char>>(item.created_at),
{
}

/// A memory is written down with all that it holds, each part in its own column.
pub proof fn memories_are_written_whole(item: MemoryView)
    ensures
        row_of(item).id == id_text(item.id),
        row_of(item).partition == item.partition,
        row_of(item).kind == item.kind.word(),
        row_of(item).content == item.content,
        row_of(item).tags == texts_text(item.tags),
        row_of(item).source == item.source.word(),
        row_of(item).sensitivity == item.sensitivity.word(),
        row_of(item).created_at == time_text(item.created_at),
        item.expires_at is None ==> row_of(item).expires_at is None,
        item.expires_at matches Some(t) ==> row_of(item).expires_at == Some(time_text(t)),
        row_of(item).metadata == compact_text(item.metadata),
{
}

/// A row that cannot be read says which of its columns is at fault.
pub proof fn unreadable_rows_say_why(row: RowView)
    ensures
        id_read(row.id) matches Err(e) ==> item_of(row) == Err::<MemoryView, Seq<char>>(
            "invalid uuid: "@ + e,
        ),
        item_of(row) is Ok ==> kind_named(spelled(row.kind)) is Some && source_named(
            spelled(row.source),
        ) is Some && sensitivity_named(spelled(row.sensitivity)) is Some,
        item_of(row) matches Ok(item) ==> kind_named(spelled(row.kind)) == Some(item.kind)
            && source_named(spelled(row.source)) == Some(item.source) && sensitivity_named(
            spelled(row.sensitivity),
        ) == Some(item.sensitivity),
        item_of(row) matches Ok(item) ==> value_read(row.metadata) matches Ok(value) ==> item.metadata
            == value,
        item_of(row) matches Ok(item) ==> row.expires_at matches Some(text) ==> time_read(text) == Ok::<
            Timestamp,
            Seq<char>,
        >(item.expires_at->0),
{
}

/// Rows are counted and read by the same conditions, the latest first.
pub proof fn rows_are_counted_as_they_are_read(plan: QueryPlan, ctx: AgentContext, q: MemoryQuery)
    requires
        plans(plan, ctx, q),
    ensures
        ({
            let clause = "WHERE "@ + joined(conditions(ctx, q), " AND "@);
            &&& plan.count_sql@ == "SELECT COUNT(*) as cnt FROM memory_items "@ + clause
            &&& plan.data_sql@
                == "SELECT id, partition, kind, content, tags, source, sensitivity, created_at, expires_at, metadata FROM memory_items "@
                + clause + " ORDER BY created_at DESC LIMIT ? OFFSET ?"@
            &&& views(plan.bind_values@) == bind_views(ctx, q)
            &&& q.limit > 0 ==> plan.limit == q.limit
            &&& q.limit == 0 ==> plan.limit == 100
            &&& plan.offset == q.offset
        }),
{
}

/// An agent may use the partitions that it is given, and a refusal names the agent and the partition.
pub proof fn partitions_are_for_those_who_have_them(
    ctx: AgentContext,
    partition: Seq<char>,
    e: NeuromancerError,
    i: int,
)
    ensures
        0 <= i < ctx.allowed_memory_partitions@.len() ==> may_use(
            ctx,
            ctx.allowed_memory_partitions@[i]@,
        ),
        (forall|k: int|
            0 <= k < ctx.allowed_memory_partitions@.len() ==> (
            #[trigger] ctx.allowed_memory_partitions@[k])@ != partition) ==> !may_use(ctx, partition),
        is_denied(e, ctx, partition) ==> (e matches NeuromancerError::Policy(
            PolicyError::PartitionAccessDenied { agent_id, partition: p },
        ) && agent_id@ == ctx.agent_id@ && p@ == partition),
{
    let allowed = views(ctx.allowed_memory_partitions@);
    if 0 <= i < ctx.allowed_memory_partitions@.len() {
        assert(allowed[i] == ctx.allowed_memory_partitions@[i]@);
    }
    if forall|k: int|
        0 <= k < ctx.allowed_memory_partitions@.len() ==> (
        #[trigger] ctx.allowed_memory_partitions@[k])@ != partition {
        if allowed.contains(partition) {
            let k = choose|k: int| 0 <= k < allowed.len() && allowed[k] == partition;
            assert(ctx.allowed_memory_partitions@[k]@ == partition);
        }
    }
}

/// A column that is at fault is named, with what it holds where it should hold one of some words, and
/// the first such column is the one that is named.
pub proof fn faults_name_their_columns(row: RowView)
    requires
        id_read(row.id) is Ok,
    ensures
        ({
            let kind = first_read(quoted(row.kind));
            let source = first_read(quoted(row.source));
            let sensitivity = first_read(quoted(row.sensitivity));
            let kind_fits = word_fault(
                "kind"@,
                row.kind,
                kind_words(),
                kind_named(spelled(row.kind)) is Some,
            ) is None;
            let source_fits = word_fault(
                "source"@,
                row.source,
                source_words(),
                source_named(spelled(row.source)) is Some,
            ) is None;
            let sensitivity_fits = word_fault(
                "sensitivity"@,
                row.sensitivity,
                sensitivity_words(),
                sensitivity_named(spelled(row.sensitivity)) is Some,
            ) is None;
            &&& kind matches Err(e) ==> item_of(row) == Err::<MemoryView, Seq<char>>(
                "invalid "@ + "kind"@ + " '"@ + row.kind + "': "@ + e,
            )
            &&& kind_fits ==> (texts_read(row.tags) matches Err(e) ==> item_of(row) == Err::<
                MemoryView,
                Seq<char>,
            >("invalid tags: "@ + e))
            &&& kind_fits && texts_read(row.tags) is Ok ==> (source matches Err(e) ==> item_of(row)
                == Err::<MemoryView, Seq<char>>(
                "invalid "@ + "source"@ + " '"@ + row.source + "': "@ + e,
            ))
            &&& kind_fits && texts_read(row.tags) is Ok && source_fits
                ==> (sensitivity matches Err(e) ==> item_of(row) == Err::<MemoryView, Seq<char>>(
                "invalid "@ + "sensitivity"@ + " '"@ + row.sensitivity + "': "@ + e,
            ))
            &&& kind_fits && texts_read(row.tags) is Ok && source_fits && sensitivity_fits
                ==> (time_read(row.created_at) matches Err(e) ==> item_of(row) == Err::<
                MemoryView,
                Seq<char>,
            >("invalid created_at: "@ + e))
            &&& kind_fits && texts_read(row.tags) is Ok && source_fits && sensitivity_fits && time_read(
                row.created_at,
            ) is Ok && row.expires_at is Some ==> (time_read(row.expires_at->0) matches Err(e)
                ==> item_of(row) == Err::<MemoryView, Seq<char>>("invalid expires_at: "@ + e))
        }),
{
}

/// A word that is none of those expected is named with them and with where it ends.
pub proof fn unknown_words_are_named(
    what: Seq<char>,
    column: Seq<char>,
    expected: Seq<char>,
    word: Seq<char>,
    end: nat,
)
    requires
        first_read(quoted(column)) == Ok::<(Seq<char>, nat), Seq<char>>((word, end)),
    ensures
        spelled(column) == word,
        word_fault(what, column, expected, false) == Some(
            "invalid "@ + what + " '"@ + column + "': "@ + "unknown variant `"@ + word
                + "`, expected one of "@ + expected + " at line 1 column "@ + decimal(end),
        ),
        text_read(quoted(column)) is Ok ==> word_fault(what, column, expected, true) is None,
        text_read(quoted(column)) matches Err(e) ==> word_fault(what, column, expected, true) == Some(
            "invalid "@ + what + " '"@ + column + "': "@ + e,
        ),
{
}

} // verus!

//! The tasks that agents of other systems have asked for.

use vstd::prelude::*;
use crate::agent::SubAgentReport;
use crate::a2a::types::{
    a2a_artifacts, a2a_messages, a2a_parts, A2aArtifact, A2aArtifactView, A2aMessage,
    A2aMessageView, A2aPartView, A2aTaskRecord, A2aTaskStatus, AgentCard, Part, RecordView,
};
use crate::named::{lemma_entries_are_found, lemma_name_index, name_index, Named};
use crate::task::{Artifact, TaskId};
use crate::time::{id_text, id_to_text, new_id, now, Timestamp};

verus! {

/// What the A2A layer knows.
#[derive(Debug)]
pub struct A2aState {
    /// A2A tasks by their A2A task ID.
    pub tasks: Named<A2aTaskRecord>,
    /// Agent card served at /.well-known/agent-card.json.
    pub agent_card: AgentCard,
}

/// A request submitted from the A2A layer to the orchestrator.
#[derive(Debug)]
pub struct A2aTaskRequest {
    pub a2a_task_id: String,
    pub message: A2aMessage,
    pub task_id: Option<String>,
}

/// An artifact that holds one text.
pub open spec fn text_artifact(a: Artifact, last_chunk: Option<bool>) -> A2aArtifactView {
    A2aArtifactView {
        name: a.name@,
        parts: seq![A2aPartView::Text(a.content@)],
        index: None,
        last_chunk,
        metadata: None,
    }
}

/// Artifacts that each hold one text.
pub open spec fn text_artifacts(
    list: Seq<Artifact>,
    last_chunk: Option<bool>,
) -> Seq<A2aArtifactView> {
    Seq::new(list.len(), |i: int| text_artifact(list[i], last_chunk))
}

/// The status that a report of an agent gives a task.
pub open spec fn reported_status(report: SubAgentReport) -> A2aTaskStatus {
    match report {
        SubAgentReport::Progress { .. } => A2aTaskStatus::Working,
        SubAgentReport::InputRequired { .. } => A2aTaskStatus::InputRequired,
        SubAgentReport::Completed { .. } => A2aTaskStatus::Completed,
        SubAgentReport::Failed { .. } => A2aTaskStatus::Failed,
        SubAgentReport::Stuck { .. } => A2aTaskStatus::Failed,
        SubAgentReport::ToolFailure { retry_eligible, .. } => if retry_eligible {
            A2aTaskStatus::Working
        } else {
            A2aTaskStatus::Failed
        },
        SubAgentReport::PolicyDenied { .. } => A2aTaskStatus::InputRequired,
    }
}

/// The artifacts that a report of an agent brings.
pub open spec fn reported_artifacts(report: SubAgentReport) -> Seq<A2aArtifactView> {
    match report {
        SubAgentReport::Progress { artifacts_so_far, .. } => text_artifacts(
            artifacts_so_far@,
            None,
        ),
        SubAgentReport::Completed { artifacts, .. } => text_artifacts(artifacts@, Some(true)),
        SubAgentReport::Stuck { partial_result, .. } => match partial_result {
            Some(a) => seq![text_artifact(a, Some(true))],
            None => Seq::empty(),
        },
        _ => Seq::empty(),
    }
}

fn to_text_artifact(a: &Artifact, last_chunk: Option<bool>) -> (r: A2aArtifact)
    ensures
        r@ == text_artifact(*a, last_chunk),
{
    let parts = vec![Part::Text { text: a.content.clone() }];
    assert(a2a_parts(parts@) =~= seq![A2aPartView::Text(a.content@)]);
    A2aArtifact { name: a.name.clone(), parts, index: None, last_chunk, metadata: None }
}

fn to_text_artifacts(list: &Vec<Artifact>, last_chunk: Option<bool>) -> (r: Vec<A2aArtifact>)
    ensures
        a2a_artifacts(r@) == text_artifacts(list@, last_chunk),
{
    let mut r: Vec<A2aArtifact> = Vec::new();
    let mut i: usize = 0;
    while i < list.len()
        invariant
            i <= list@.len(),
            r@.len() == i,
            forall|k: int| 0 <= k < i ==> (#[trigger] r@[k])@ == text_artifact(list@[k], last_chunk),
        decreases list@.len() - i,
    {
        r.push(to_text_artifact(&list[i], last_chunk));
        i = i + 1;
    }
    assert(a2a_artifacts(r@) =~= text_artifacts(list@, last_chunk));
    r
}

/// Map a SubAgentReport to an A2A task status and optional artifacts.
pub fn map_report_to_a2a(report: &SubAgentReport) -> (r: (A2aTaskStatus, Vec<A2aArtifact>))
    ensures
        r.0 == reported_status(*report),
        a2a_artifacts(r.1@) == reported_artifacts(*report),
{
    let none: Vec<A2aArtifact> = Vec::new();
    assert(a2a_artifacts(none@) =~= Seq::empty());
    match report {
        SubAgentReport::Progress { artifacts_so_far, .. } => (
            A2aTaskStatus::Working,
            to_text_artifacts(artifacts_so_far, None),
        ),
        SubAgentReport::InputRequired { .. } => (A2aTaskStatus::InputRequired, none),
        SubAgentReport::Completed { artifacts, .. } => (
            A2aTaskStatus::Completed,
            to_text_artifacts(artifacts, Some(true)),
        ),
        SubAgentReport::Failed { .. } => (A2aTaskStatus::Failed, none),
        SubAgentReport::Stuck { partial_result, .. } => match partial_result {
            Some(a) => {
                let list = vec![to_text_artifact(a, Some(true))];
                assert(a2a_artifacts(list@) =~= seq![text_artifact(*a, Some(true))]);
                (A2aTaskStatus::Failed, list)
            },
            None => (A2aTaskStatus::Failed, none),
        },
        SubAgentReport::ToolFailure { retry_eligible, .. } => if *retry_eligible {
            (A2aTaskStatus::Working, none)
        } else {
            (A2aTaskStatus::Failed, none)
        },
        SubAgentReport::PolicyDenied { .. } => (A2aTaskStatus::InputRequired, none),
    }
}

/// The status that a report of an agent gives a task.
pub fn map_report_status(report: &SubAgentReport) -> (r: A2aTaskStatus)
    ensures
        r == reported_status(*report),
{
    map_report_to_a2a(report).0
}

/// The record of a task that was just asked for.
pub open spec fn new_record(id: Seq<char>, message: A2aMessageView, at: Timestamp) -> RecordView {
    RecordView {
        id,
        status: A2aTaskStatus::Working,
        artifacts: Seq::empty(),
        history: seq![message],
        internal_task_id: None,
        created_at: at,
        updated_at: at,
    }
}

/// A task in this state is over.
pub open spec fn is_over(status: A2aTaskStatus) -> bool {
    status is Completed || status is Failed
}

impl RecordView {
    /// The record of a task after a report on it.
    pub open spec fn reported(self, report: SubAgentReport, at: Timestamp) -> RecordView {
        RecordView {
            status: reported_status(report),
            artifacts: self.artifacts + reported_artifacts(report),
            updated_at: at,
            ..self
        }
    }

    /// The record of a task that was cancelled.
    pub open spec fn cancelled(self, at: Timestamp) -> RecordView {
        RecordView { status: A2aTaskStatus::Failed, updated_at: at, ..self }
    }
}

/// What a list of records holds.
pub open spec fn record_views(list: Seq<A2aTaskRecord>) -> Seq<RecordView> {
    Seq::new(list.len(), |i: int| list[i]@)
}

/// The record is that of a task that is known.
pub open spec fn is_record_in(known: Map<Seq<char>, RecordView>, record: RecordView) -> bool {
    exists|id: Seq<char>| (#[trigger] known.dom().contains(id)) && known[id] == record
}

/// Every record that is known occurs in the list, and nothing else does.
pub open spec fn lists_all(records: Seq<RecordView>, known: Map<Seq<char>, RecordView>) -> bool {
    &&& forall|id: Seq<char>| #[trigger]
        known.dom().contains(id) ==> records.contains(known[id])
    &&& forall|i: int|
        0 <= i < records.len() ==> is_record_in(known, #[trigger] records[i])
}

impl A2aState {
    /// What is known of each task.
    pub open spec fn known(self) -> Map<Seq<char>, RecordView> {
        self.tasks@.map_values(|r: A2aTaskRecord| r@)
    }

    pub fn new(agent_card: AgentCard) -> (r: A2aState)
        ensures
            r.known() == Map::<Seq<char>, RecordView>::empty(),
            r.agent_card == agent_card,
    {
        let r = A2aState { tasks: Named::new(), agent_card };
        assert(r.known() =~= Map::<Seq<char>, RecordView>::empty());
        r
    }

    pub fn agent_card(&self) -> (r: &AgentCard)
        ensures
            *r == self.agent_card,
    {
        &self.agent_card
    }

    pub fn update_agent_card(&mut self, card: AgentCard)
        ensures
            final(self).agent_card == card,
            final(self).tasks == old(self).tasks,
    {
        self.agent_card = card;
    }

    /// What is known of a task.
    pub fn get_task(&self, id: &str) -> (r: Option<A2aTaskRecord>)
        ensures
            match r {
                Some(record) => self.known().dom().contains(id@) && record@ == self.known()[id@],
                None => !self.known().dom().contains(id@),
            },
    {
        match self.tasks.get(id) {
            Some(record) => Some(record.copy()),
            None => None,
        }
    }

    /// What is known of all tasks.
    pub fn list_tasks(&self) -> (r: Vec<A2aTaskRecord>)
        ensures
            r@.len() == self.tasks.list().len(),
            forall|i: int| 0 <= i < r@.len() ==> (#[trigger] r@[i])@ == self.tasks.list()[i].1@,
            lists_all(record_views(r@), self.known()),
    {
        let mut r: Vec<A2aTaskRecord> = Vec::new();
        let mut i: usize = 0;
        while i < self.tasks.len()
            invariant
                i <= self.tasks.list().len(),
                r@.len() == i,
                forall|k: int| 0 <= k < i ==> (#[trigger] r@[k])@ == self.tasks.list()[k].1@,
            decreases self.tasks.list().len() - i,
        {
            r.push(self.tasks.at(i).1.copy());
            i = i + 1;
        }
        proof {
            let all = self.tasks.list();
            let records = record_views(r@);
            assert forall|id: Seq<char>| #[trigger]
                self.known().dom().contains(id) implies records.contains(self.known()[id]) by {
                lemma_name_index(all, id);
                assert(records[name_index(all, id)] == self.known()[id]);
            }
            assert forall|k: int| 0 <= k < records.len() implies is_record_in(
                self.known(),
                #[trigger] records[k],
            ) by {
                lemma_entries_are_found(all, k);
                assert(self.known().dom().contains(all[k].0@));
                assert(self.known()[all[k].0@] == records[k]);
            }
        }
        r
    }

    /// Adds a task under an identifier.
    pub fn add_task(&mut self, id: String, message: A2aMessage, at: Timestamp)
        ensures
            final(self).known() == old(self).known().insert(id@, new_record(id@, message@, at)),
            final(self).agent_card == old(self).agent_card,
    {
        let history = vec![message];
        let record = A2aTaskRecord {
            id: id.clone(),
            status: A2aTaskStatus::Working,
            artifacts: Vec::new(),
            history,
            internal_task_id: None,
            created_at: at,
            updated_at: at,
        };
        proof {
            assert(a2a_messages(history@) =~= seq![message@]);
            assert(a2a_artifacts(record.artifacts@) =~= Seq::empty());
        }
        self.tasks.insert(id, record);
        assert(self.known() =~= old(self).known().insert(id@, new_record(id@, message@, at)));
    }

    /// Create a new A2A task record and return its ID.
    pub fn create_task(&mut self, message: A2aMessage) -> (r: String)
        ensures
            exists|id: u128| r@ == #[trigger] id_text(id),
            exists|at: Timestamp|
                final(self).known() == old(self).known().insert(
                    r@,
                    #[trigger] new_record(r@, message@, at),
                ),
            final(self).agent_card == old(self).agent_card,
    {
        let key = new_id();
        let id = id_to_text(key);
        let at = now();
        let ghost m = message@;
        assert(id@ == id_text(key));
        self.add_task(id.clone(), message, at);
        assert(self.known() == old(self).known().insert(id@, new_record(id@, m, at)));
        id
    }

    /// Link an A2A task to an internal TaskId.
    pub fn link_internal_task(&mut self, a2a_id: &str, internal_id: TaskId)
        ensures
            final(self).agent_card == old(self).agent_card,
            !old(self).known().dom().contains(a2a_id@) ==> final(self).known() == old(
                self,
            ).known(),
            old(self).known().dom().contains(a2a_id@) ==> final(self).known() == old(
                self,
            ).known().insert(
                a2a_id@,
                RecordView {
                    internal_task_id: Some(internal_id),
                    ..old(self).known()[a2a_id@]
                },
            ),
    {
        match self.tasks.remove(a2a_id) {
            Some(record) => {
                let mut record = record;
                record.internal_task_id = Some(internal_id);
                self.tasks.insert(a2a_id.to_owned(), record);
                assert(self.known() =~= old(self).known().insert(a2a_id@, record@));
            },
            None => {
                assert(self.known() =~= old(self).known());
            },
        }
    }

    /// Update task status from a SubAgentReport.
    pub fn update_from_report(&mut self, a2a_id: &str, report: &SubAgentReport, at: Timestamp)
        ensures
            final(self).agent_card == old(self).agent_card,
            !old(self).known().dom().contains(a2a_id@) ==> final(self).known() == old(
                self,
            ).known(),
            old(self).known().dom().contains(a2a_id@) ==> final(self).known() == old(
                self,
            ).known().insert(
                a2a_id@,
                old(self).known()[a2a_id@].reported(*report, at),
            ),
    {
        match self.tasks.remove(a2a_id) {
            Some(record) => {
                let mut record = record;
                let ghost had = record.artifacts@;
                let (status, artifacts) = map_report_to_a2a(report);
                let mut artifacts = artifacts;
                let ghost brought = artifacts@;
                record.status = status;
                record.artifacts.append(&mut artifacts);
                record.updated_at = at;
                proof {
                    assert(a2a_artifacts(had + brought) =~= a2a_artifacts(had) + a2a_artifacts(
                        brought,
                    ));
                }
                self.tasks.insert(a2a_id.to_owned(), record);
                assert(self.known() =~= old(self).known().insert(a2a_id@, record@));
            },
            None => {
                assert(self.known() =~= old(self).known());
            },
        }
    }

    /// Update task status directly.
    pub fn set_task_status(&mut self, a2a_id: &str, status: A2aTaskStatus, at: Timestamp)
        ensures
            final(self).agent_card == old(self).agent_card,
            !old(self).known().dom().contains(a2a_id@) ==> final(self).known() == old(
                self,
            ).known(),
            old(self).known().dom().contains(a2a_id@) ==> final(self).known() == old(
                self,
            ).known().insert(
                a2a_id@,
                RecordView { status, updated_at: at, ..old(self).known()[a2a_id@] },
            ),
    {
        match self.tasks.remove(a2a_id) {
            Some(record) => {
                let mut record = record;
                record.status = status;
                record.updated_at = at;
                self.tasks.insert(a2a_id.to_owned(), record);
                assert(self.known() =~= old(self).known().insert(a2a_id@, record@));
            },
            None => {
                assert(self.known() =~= old(self).known());
            },
        }
    }
}

/// What a task has brought is never taken back: a report only adds to its artifacts, and leaves
/// what was said for the task as it is.
pub proof fn reports_only_add(before: RecordView, report: SubAgentReport, at: Timestamp)
    ensures
        before.artifacts.is_prefix_of(before.reported(report, at).artifacts),
        before.reported(report, at).id == before.id,
        before.reported(report, at).history == before.history,
        before.reported(report, at).created_at == before.created_at,
{
    assert(before.reported(report, at).artifacts.subrange(0, before.artifacts.len() as int)
        =~= before.artifacts);
}

/// A task that was added is listed, and no other task that was there is left out.
pub proof fn added_tasks_are_listed(
    known: Map<Seq<char>, RecordView>,
    id: Seq<char>,
    record: RecordView,
    records: Seq<RecordView>,
    other: Seq<char>,
)
    requires
        lists_all(records, known.insert(id, record)),
    ensures
        records.contains(record),
        known.dom().contains(other) && other != id ==> records.contains(known[other]),
{
    let after = known.insert(id, record);
    assert(after.dom().contains(id));
    if known.dom().contains(other) {
        assert(after.dom().contains(other));
    }
}

/// A report of progress leaves a task working, one that asks leaves it waiting, and one that ends it
/// ends it. A tool that failed ends it unless it can be tried again.
pub proof fn reports_tell_how_a_task_stands(report: SubAgentReport)
    ensures
        match report {
            SubAgentReport::Progress { .. } => reported_status(report) is Working,
            SubAgentReport::InputRequired { .. } => reported_status(report) is InputRequired,
            SubAgentReport::ToolFailure { retry_eligible, .. } => if retry_eligible {
                reported_status(report) is Working
            } else {
                reported_status(report) is Failed
            },
            SubAgentReport::PolicyDenied { .. } => reported_status(report) is InputRequired,
            SubAgentReport::Stuck { .. } => reported_status(report) is Failed,
            SubAgentReport::Completed { .. } => reported_status(report) is Completed,
            SubAgentReport::Failed { .. } => reported_status(report) is Failed,
        },
{
}

/// What a report brings is added in its order, each artifact with its name and its content as one
/// text; of a task that is over, each is the last of its kind.
pub proof fn reports_bring_their_artifacts(report: SubAgentReport, i: int)
    ensures
        ({
            let brought = reported_artifacts(report);
            match report {
                SubAgentReport::Progress { artifacts_so_far, .. } => brought.len()
                    == artifacts_so_far@.len() && (0 <= i < brought.len() ==> brought[i].name
                    == artifacts_so_far@[i].name@ && brought[i].parts == seq![
                    A2aPartView::Text(artifacts_so_far@[i].content@),
                ] && brought[i].last_chunk is None),
                SubAgentReport::Completed { artifacts, .. } => brought.len() == artifacts@.len() && (0
                    <= i < brought.len() ==> brought[i].name == artifacts@[i].name@
                    && brought[i].parts == seq![A2aPartView::Text(artifacts@[i].content@)]
                    && brought[i].last_chunk == Some(true)),
                SubAgentReport::Stuck { partial_result: Some(a), .. } => brought.len() == 1
                    && brought[0].name == a.name@ && brought[0].parts == seq![
                    A2aPartView::Text(a.content@),
                ] && brought[0].last_chunk == Some(true),
                _ => brought.len() == 0,
            }
        }),
{
}

/// A report changes how a task stands and when it was last heard of, and adds what it brings; all
/// else about the task stays.
pub proof fn reports_change_only_the_standing(before: RecordView, report: SubAgentReport, at: Timestamp)
    ensures
        before.reported(report, at).status == reported_status(report),
        before.reported(report, at).updated_at == at,
        before.reported(report, at).artifacts == before.artifacts + reported_artifacts(report),
        before.reported(report, at).internal_task_id == before.internal_task_id,
        before.cancelled(at).status is Failed,
        before.cancelled(at).updated_at == at,
        before.cancelled(at).created_at == before.created_at,
        before.cancelled(at).internal_task_id == before.internal_task_id,
{
}

/// A new task works on the message that it was made for and has nothing to show.
pub proof fn new_tasks_work_on_their_message(id: Seq<char>, message: A2aMessageView, at: Timestamp)
    ensures
        new_record(id, message, at).id == id,
        new_record(id, message, at).status is Working,
        new_record(id, message, at).history == seq![message],
        new_record(id, message, at).artifacts.len() == 0,
        new_record(id, message, at).internal_task_id is None,
        new_record(id, message, at).created_at == at,
        new_record(id, message, at).updated_at == at,
{
}

/// A task is over once it is completed or failed.
pub proof fn tasks_are_over_when_done(status: A2aTaskStatus)
    ensures
        match status {
            A2aTaskStatus::Working => !is_over(status),
            A2aTaskStatus::InputRequired => !is_over(status),
            A2aTaskStatus::Completed => is_over(status),
            A2aTaskStatus::Failed => is_over(status),
        },
{
}

/// What is known of tasks is what the records hold.
pub proof fn records_are_known(state: A2aState, id: Seq<char>)
    ensures
        state.known().dom().contains(id) <==> state.tasks@.dom().contains(id),
        state.known().dom().contains(id) ==> state.known()[id] == state.tasks@[id]@,
{
}

/// A list of all tasks has each that is known, and none that is not.
pub proof fn lists_have_each_task(
    records: Seq<RecordView>,
    known: Map<Seq<char>, RecordView>,
    id: Seq<char>,
    i: int,
)
    requires
        lists_all(records, known),
    ensures
        known.dom().contains(id) ==> records.contains(known[id]),
        0 <= i < records.len() ==> exists|key: Seq<char>|
            (#[trigger] known.dom().contains(key)) && known[key] == records[i],
{
    if 0 <= i < records.len() {
        assert(is_record_in(known, records[i]));
    }
}

} // verus!

//! What requests of other agents are answered.

use vstd::prelude::*;
use crate::a2a::state::{
    is_over, is_record_in, new_record, record_views, A2aState, A2aTaskRequest,
};
use crate::a2a::types::{
    a2a_artifacts, a2a_messages, A2aErrorResponse, A2aTaskRecord, A2aTaskStatus,
    MessageSendRequest, MessageSendResponse, RecordView, TaskListResponse, TaskStatusResponse,
};
use crate::text::opt_view;
use crate::time::{id_text, Timestamp};

verus! {

pub const A2A_CONTENT_TYPE: &'static str = "application/a2a+json";

/// A request that is refused: the HTTP status and what is said.
#[derive(Debug)]
pub struct Refusal {
    pub status: u16,
    pub body: A2aErrorResponse,
}

impl Refusal {
    /// The refusal has this status and says this.
    pub open spec fn says(self, status: u16, code: Seq<char>, message: Seq<char>) -> bool {
        &&& self.status == status
        &&& self.body.code@ == code
        &&& self.body.message@ == message
        &&& self.body.details is None
    }
}

pub fn error_response(status: u16, code: &str, message: &str) -> (r: Refusal)
    ensures
        r.says(status, code@, message@),
{
    Refusal {
        status,
        body: A2aErrorResponse {
            code: code.to_owned(),
            message: message.to_owned(),
            details: None,
        },
    }
}

/// There is no such task.
pub open spec fn is_not_found(r: Refusal) -> bool {
    r.says(404, "task_not_found"@, "task not found"@)
}

/// The task that a message is for: the one that it names, or else a new one. A message for a task
/// that is not known is refused.
pub fn task_for_message(state: &mut A2aState, body: MessageSendRequest) -> (r: Result<
    A2aTaskRequest,
    Refusal,
>)
    ensures
        final(state).agent_card == old(state).agent_card,
        match (body.task_id, r) {
            (Some(id), Ok(request)) => {
                &&& old(state).known().dom().contains(id@)
                &&& final(state).known() == old(state).known()
                &&& request.a2a_task_id@ == id@
                &&& request.message == body.message
                &&& opt_view(request.task_id) == Some(id@)
            },
            (Some(id), Err(e)) => {
                &&& !old(state).known().dom().contains(id@)
                &&& final(state).known() == old(state).known()
                &&& is_not_found(e)
            },
            (None, Ok(request)) => {
                &&& exists|key: u128| request.a2a_task_id@ == #[trigger] id_text(key)
                &&& exists|at: Timestamp|
                    final(state).known() == old(state).known().insert(
                        request.a2a_task_id@,
                        #[trigger] new_record(request.a2a_task_id@, body.message@, at),
                    )
                &&& request.message == body.message
                &&& request.task_id is None
            },
            (None, Err(_)) => false,
        },
{
    match body.task_id {
        Some(id) => {
            if state.get_task(id.as_str()).is_none() {
                return Err(error_response(404, "task_not_found", "task not found"));
            }
            Ok(
                A2aTaskRequest {
                    a2a_task_id: id.clone(),
                    message: body.message,
                    task_id: Some(id),
                },
            )
        },
        None => {
            let message = body.message.copy();
            let ghost said = message@;
            let id = state.create_task(message);
            let request = A2aTaskRequest {
                a2a_task_id: id,
                message: body.message,
                task_id: None,
            };
            proof {
                let key = choose|key: u128| id@ == #[trigger] id_text(key);
                assert(request.a2a_task_id@ == id_text(key));
                let at = choose|at: Timestamp|
                    state.known() == old(state).known().insert(
                        id@,
                        #[trigger] new_record(id@, said, at),
                    );
                assert(state.known() == old(state).known().insert(
                    request.a2a_task_id@,
                    new_record(request.a2a_task_id@, body.message@, at),
                ));
            }
            Ok(request)
        },
    }
}

/// A message could not be handed on.
pub fn submit_failed(error: &str) -> (r: Refusal)
    ensures
        r.says(500, "submit_failed"@, error@),
{
    error_response(500, "submit_failed", error)
}

/// What the sender of a message is answered: what is known of its task.
pub fn message_send_response(state: &A2aState, id: &str) -> (r: Result<
    MessageSendResponse,
    Refusal,
>)
    ensures
        match r {
            Ok(resp) => {
                &&& state.known().dom().contains(id@)
                &&& resp.id@ == state.known()[id@].id
                &&& resp.status == state.known()[id@].status
                &&& a2a_artifacts(resp.artifacts@) == state.known()[id@].artifacts
                &&& a2a_messages(resp.history@) == state.known()[id@].history
            },
            Err(e) => !state.known().dom().contains(id@) && e.says(
                500,
                "internal"@,
                "task vanished"@,
            ),
        },
{
    match state.get_task(id) {
        Some(record) => Ok(
            MessageSendResponse {
                id: record.id,
                status: record.status,
                artifacts: record.artifacts,
                history: record.history,
            },
        ),
        None => Err(error_response(500, "internal", "task vanished")),
    }
}

/// The answer tells what is known of a task.
pub open spec fn tells(resp: TaskStatusResponse, record: RecordView) -> bool {
    &&& resp.id@ == record.id
    &&& resp.status == record.status
    &&& a2a_artifacts(resp.artifacts@) == record.artifacts
    &&& a2a_messages(resp.history@) == record.history
    &&& resp.metadata is None
}

fn status_response(record: A2aTaskRecord) -> (r: TaskStatusResponse)
    ensures
        tells(r, record@),
{
    TaskStatusResponse {
        id: record.id,
        status: record.status,
        artifacts: record.artifacts,
        history: record.history,
        metadata: None,
    }
}

/// What is answered to who asks for a task.
pub fn get_task_response(state: &A2aState, id: &str) -> (r: Result<TaskStatusResponse, Refusal>)
    ensures
        match r {
            Ok(resp) => state.known().dom().contains(id@) && tells(resp, state.known()[id@]),
            Err(e) => !state.known().dom().contains(id@) && is_not_found(e),
        },
{
    match state.get_task(id) {
        Some(record) => Ok(status_response(record)),
        None => Err(error_response(404, "task_not_found", "task not found")),
    }
}

/// The answer tells what is known of some task.
pub open spec fn tells_known(
    resp: TaskStatusResponse,
    known: Map<Seq<char>, RecordView>,
) -> bool {
    exists|id: Seq<char>| (#[trigger] known.dom().contains(id)) && tells(resp, known[id])
}

/// One of the answers tells what is known of a task.
pub open spec fn is_told(tasks: Seq<TaskStatusResponse>, record: RecordView) -> bool {
    exists|i: int| 0 <= i < tasks.len() && tells(#[trigger] tasks[i], record)
}

/// What is answered to who asks for all tasks.
pub fn list_tasks_response(state: &A2aState) -> (r: TaskListResponse)
    ensures
        r.tasks@.len() == state.tasks.list().len(),
        forall|i: int|
            0 <= i < r.tasks@.len() ==> tells(
                #[trigger] r.tasks@[i],
                state.tasks.list()[i].1@,
            ),
        forall|id: Seq<char>| #[trigger]
            state.known().dom().contains(id) ==> is_told(r.tasks@, state.known()[id]),
        forall|i: int|
            0 <= i < r.tasks@.len() ==> tells_known(#[trigger] r.tasks@[i], state.known()),
{
    let mut records = state.list_tasks();
    let ghost all = records@;
    let mut tasks: Vec<TaskStatusResponse> = Vec::new();
    assert(all.skip(0) =~= all);
    while records.len() > 0
        invariant
            tasks@.len() <= all.len(),
            records@ == all.skip(tasks@.len() as int),
            forall|i: int| 0 <= i < tasks@.len() ==> tells(#[trigger] tasks@[i], all[i]@),
        decreases records@.len(),
    {
        let ghost n = tasks@.len() as int;
        let record = records.remove(0);
        assert(records@ =~= all.skip(n + 1));
        tasks.push(status_response(record));
    }
    proof {
        let known = state.known();
        assert forall|id: Seq<char>| #[trigger] known.dom().contains(id) implies is_told(
            tasks@,
            known[id],
        ) by {
            let i = record_views(all).index_of(known[id]);
            assert(record_views(all).contains(known[id]));
            assert(record_views(all)[i] == all[i]@);
            assert(tells(tasks@[i], known[id]));
        }
        assert forall|i: int| 0 <= i < tasks@.len() implies tells_known(
            #[trigger] tasks@[i],
            known,
        ) by {
            assert(is_record_in(known, record_views(all)[i]));
            let id = choose|id: Seq<char>|
                (#[trigger] known.dom().contains(id)) && known[id] == record_views(all)[i];
            assert(known.dom().contains(id) && tells(tasks@[i], known[id]));
        }
    }
    TaskListResponse { tasks }
}

/// Cancels a task: it counts as failed. A task that is over cannot be cancelled.
pub fn cancel_task(state: &mut A2aState, id: &str, at: Timestamp) -> (r: Result<
    TaskStatusResponse,
    Refusal,
>)
    ensures
        final(state).agent_card == old(state).agent_card,
        match r {
            Ok(resp) => {
                &&& old(state).known().dom().contains(id@)
                &&& !is_over(old(state).known()[id@].status)
                &&& final(state).known() == old(state).known().insert(
                    id@,
                    old(state).known()[id@].cancelled(at),
                )
                &&& tells(resp, final(state).known()[id@])
            },
            Err(e) => {
                &&& final(state).known() == old(state).known()
                &&& if old(state).known().dom().contains(id@) {
                    &&& is_over(old(state).known()[id@].status)
                    &&& e.says(409, "task_terminal"@, "task is already in a terminal state"@)
                } else {
                    is_not_found(e)
                }
            },
        },
{
    match state.get_task(id) {
        Some(record) => {
            if record.status == A2aTaskStatus::Completed || record.status
                == A2aTaskStatus::Failed {
                return Err(
                    error_response(409, "task_terminal", "task is already in a terminal state"),
                );
            }
            state.set_task_status(id, A2aTaskStatus::Failed, at);
            match state.get_task(id) {
                Some(updated) => Ok(status_response(updated)),
                None => {
                    assert(false);
                    Err(error_response(404, "task_not_found", "task not found"))
                },
            }
        },
        None => Err(error_response(404, "task_not_found", "task not found")),
    }
}

/// Whether what happens to a task can be followed.
pub fn may_subscribe(state: &A2aState, id: &str) -> (r: Result<(), Refusal>)
    ensures
        match r {
            Ok(()) => state.known().dom().contains(id@),
            Err(e) => !state.known().dom().contains(id@) && is_not_found(e),
        },
{
    match state.get_task(id) {
        Some(_) => Ok(()),
        None => Err(error_response(404, "task_not_found", "task not found")),
    }
}

/// A task that was cancelled is over, so it cannot be cancelled again; what it brought stays.
pub proof fn cancelling_is_final(before: RecordView, at: Timestamp)
    ensures
        is_over(before.cancelled(at).status),
        before.cancelled(at).id == before.id,
        before.cancelled(at).artifacts == before.artifacts,
        before.cancelled(at).history == before.history,
{
}

/// A refusal has its status, its code and what it says.
pub proof fn refusals_say_why(r: Refusal, status: u16, code: Seq<char>, message: Seq<char>)
    ensures
        r.says(status, code, message) ==> r.status == status && r.body.code@ == code
            && r.body.message@ == message && r.body.details is None,
        is_not_found(r) ==> r.status == 404 && r.body.code@ == "task_not_found"@ && r.body.message@
            == "task not found"@,
{
}

/// What is told of a task is how it stands, all that it has to show and all that was said, in order.
pub proof fn tasks_are_told_whole(resp: TaskStatusResponse, record: A2aTaskRecord, i: int)
    requires
        tells(resp, record@),
    ensures
        resp.id@ == record.id@,
        resp.status == record.status,
        resp.artifacts@.len() == record.artifacts@.len(),
        0 <= i < resp.artifacts@.len() ==> resp.artifacts@[i]@ == record.artifacts@[i]@,
        resp.history@.len() == record.history@.len(),
        0 <= i < resp.history@.len() ==> resp.history@[i]@ == record.history@[i]@,
        resp.metadata is None,
{
    assert(a2a_artifacts(resp.artifacts@) == a2a_artifacts(record.artifacts@));
    assert(a2a_messages(resp.history@) == a2a_messages(record.history@));
    if 0 <= i < resp.artifacts@.len() {
        assert(a2a_artifacts(resp.artifacts@)[i] == a2a_artifacts(record.artifacts@)[i]);
    }
    if 0 <= i < resp.history@.len() {
        assert(a2a_messages(resp.history@)[i] == a2a_messages(record.history@)[i]);
    }
    assert(a2a_artifacts(resp.artifacts@).len() == a2a_artifacts(record.artifacts@).len());
    assert(a2a_messages(resp.history@).len() == a2a_messages(record.history@).len());
}

} // verus!

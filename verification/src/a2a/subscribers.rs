//! Who follows the tasks that agents of other systems have asked for.

use vstd::prelude::*;
use crate::a2a::state::{map_report_status, reported_status};
use crate::a2a::types::StreamEvent;
use crate::agent::SubAgentReport;
use crate::named::Named;

verus! {

/// The streams that follow a task, by their numbers. No number is given out twice.
#[derive(Debug)]
pub struct Subscribers {
    by_task: Named<Vec<u64>>,
    next: u64,
}

/// An event, and the streams that it goes to.
#[derive(Debug)]
pub struct Told {
    pub to: Vec<u64>,
    pub event: StreamEvent,
}

impl Subscribers {
    /// The streams that follow a task, in the order in which they began.
    pub closed spec fn of(self, task_id: Seq<char>) -> Seq<u64> {
        if self.by_task@.dom().contains(task_id) {
            self.by_task@[task_id]@
        } else {
            Seq::empty()
        }
    }

    /// How many numbers were given out.
    pub closed spec fn given(self) -> nat {
        self.next as nat
    }

    /// Only numbers that were given out are in use.
    pub open spec fn wf(self) -> bool {
        forall|task_id: Seq<char>, i: int|
            0 <= i < self.of(task_id).len() ==> (#[trigger] self.of(task_id)[i]) < self.given()
    }

    /// Nobody follows a task.
    pub fn new() -> (r: Subscribers)
        ensures
            r.wf(),
            r.given() == 0,
            forall|task_id: Seq<char>| (#[trigger] r.of(task_id)) == Seq::<u64>::empty(),
    {
        Subscribers { by_task: Named::new(), next: 0 }
    }

    /// The streams that follow a task.
    pub fn following(&self, task_id: &str) -> (r: Vec<u64>)
        ensures
            r@ == self.of(task_id@),
    {
        match self.by_task.get(task_id) {
            Some(list) => {
                let r = list.clone();
                assert(r@ =~= list@);
                r
            },
            None => Vec::new(),
        }
    }

    /// One more stream follows a task. There is none once the numbers are used up.
    pub fn subscribe(&mut self, task_id: &str) -> (r: Option<u64>)
        requires
            old(self).wf(),
        ensures
            final(self).wf(),
            match r {
                Some(n) => {
                    &&& n == old(self).given()
                    &&& final(self).given() == n + 1
                    &&& final(self).of(task_id@) == old(self).of(task_id@).push(n)
                    &&& forall|other: Seq<char>|
                        other != task_id@ ==> (#[trigger] final(self).of(other)) == old(self).of(
                            other,
                        )
                },
                None => old(self).given() == u64::MAX && *final(self) == *old(self),
            },
    {
        if self.next == u64::MAX {
            return None;
        }
        let n = self.next;
        let mut list = self.following(task_id);
        list.push(n);
        self.by_task.insert(task_id.to_owned(), list);
        self.next = n + 1;
        proof {
            assert forall|other: Seq<char>| other != task_id@ implies (#[trigger] self.of(other))
                == old(self).of(other) by {}
            assert forall|other: Seq<char>, i: int| 0 <= i < self.of(other).len() implies (
            #[trigger] self.of(other)[i]) < self.given() by {
                if other == task_id@ {
                    if i < old(self).of(other).len() {
                        assert(old(self).of(other)[i] < old(self).given());
                    }
                } else {
                    assert(old(self).of(other)[i] < old(self).given());
                }
            }
        }
        Some(n)
    }

    /// A report on a task goes to all that follow it, as the status that it gives the task.
    pub fn notify_report(&self, task_id: &str, report: &SubAgentReport) -> (r: Told)
        ensures
            r.to@ == self.of(task_id@),
            r.event matches StreamEvent::StatusUpdate { task_id: id, status } && id@ == task_id@
                && status == reported_status(*report),
    {
        Told {
            to: self.following(task_id),
            event: StreamEvent::StatusUpdate {
                task_id: task_id.to_owned(),
                status: map_report_status(report),
            },
        }
    }

    /// Notify subscribers that a task is done and clean up.
    pub fn notify_done(&mut self, task_id: &str) -> (r: Told)
        requires
            old(self).wf(),
        ensures
            final(self).wf(),
            r.to@ == old(self).of(task_id@),
            r.event matches StreamEvent::Done { task_id: id } && id@ == task_id@,
            final(self).of(task_id@) == Seq::<u64>::empty(),
            forall|other: Seq<char>|
                other != task_id@ ==> (#[trigger] final(self).of(other)) == old(self).of(other),
            final(self).given() == old(self).given(),
    {
        let to = self.following(task_id);
        let _ = self.by_task.remove(task_id);
        proof {
            assert forall|other: Seq<char>| other != task_id@ implies (#[trigger] self.of(other))
                == old(self).of(other) by {}
            assert forall|other: Seq<char>, i: int| 0 <= i < self.of(other).len() implies (
            #[trigger] self.of(other)[i]) < self.given() by {
                assert(old(self).of(other)[i] < old(self).given());
            }
        }
        Told { to, event: StreamEvent::Done { task_id: task_id.to_owned() } }
    }
}

/// A stream that begins gets a number that no other stream has, whatever task that follows.
pub proof fn numbers_are_new(followed: Subscribers, task_id: Seq<char>)
    requires
        followed.wf(),
    ensures
        forall|i: int|
            0 <= i < followed.of(task_id).len() ==> (#[trigger] followed.of(task_id)[i])
                != followed.given(),
{
}

} // verus!

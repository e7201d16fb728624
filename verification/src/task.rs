//! The task-instance aggregate: a single-assignment state machine.
//!
//! `Pending` is the sole non-terminal status. Commands (`finish`, `reject`,
//! `expire`, `add_time`) never mutate: they validate and return a
//! [`TaskEvent`] or a [`TaskDomainError`]. The one mutator is [`TaskInstance::apply`],
//! which folds an event into a new snapshot; [`TaskInstance::replay`] folds a
//! whole history from the empty instance with the same function.

use vstd::prelude::*;

use crate::events::TaskEvent;
use crate::ids::{AccountId, CatalogueTaskId, TaskId};

verus! {

/// Lifecycle status of a task instance.
#[derive(Debug, Clone, Copy, PartialEq, Eq, Structural)]
pub enum TaskStatus {
    Pending,
    Finished,
    Rejected,
    Expired,
}

/// Failures of task-instance commands.
#[derive(Debug, Clone, Copy, PartialEq, Eq, Structural)]
pub enum TaskDomainError {
    /// The command is not valid in the instance's current status.
    StatusNotApplicable,
    /// The instance has no expiry timestamp to extend.
    TaskDoesNotExpire,
    /// The requesting account may not perform this command.
    NotAuthorized,
}

/// Answer to a request for more time on an assignment: grant an extension,
/// in milliseconds, or turn it down.
#[derive(Debug, Clone, Copy, PartialEq, Eq, Structural)]
pub enum TimeRequestAction {
    Approve { add: i64 },
    Deny,
}

/// One concrete assignment of a catalogue task to an account.
///
/// `expires` is a timestamp in milliseconds; `None` means the assignment
/// never expires.
#[derive(Debug, Clone, PartialEq)]
pub struct TaskInstance {
    pub id: TaskId,
    pub catalogue_id: CatalogueTaskId,
    pub assigned_to: AccountId,
    pub assigned_by: AccountId,
    pub expires: Option<i64>,
    pub status: TaskStatus,
}

/// `a + b` clamped to the `i64` range.
pub open spec fn spec_sat_add(a: int, b: int) -> int {
    if a + b > i64::MAX as int {
        i64::MAX as int
    } else if a + b < i64::MIN as int {
        i64::MIN as int
    } else {
        a + b
    }
}

/// Saturating addition on `i64` timestamps.
pub fn sat_add(a: i64, b: i64) -> (r: i64)
    ensures
        r as int == spec_sat_add(a as int, b as int),
{
    if b >= 0 {
        if a > i64::MAX - b {
            i64::MAX
        } else {
            a + b
        }
    } else {
        if a < i64::MIN - b {
            i64::MIN
        } else {
            a + b
        }
    }
}

impl TaskInstance {
    /// The empty instance that every replay starts from.
    pub open spec fn spec_default() -> TaskInstance {
        TaskInstance {
            id: TaskId(0),
            catalogue_id: CatalogueTaskId(0),
            assigned_to: AccountId(0),
            assigned_by: AccountId(0),
            expires: None,
            status: TaskStatus::Pending,
        }
    }

    /// The creation fact of this instance.
    pub open spec fn spec_create(self) -> TaskEvent {
        TaskEvent::Assigned {
            id: self.id,
            assigned_to: self.assigned_to,
            assigned_by: self.assigned_by,
            task: self.catalogue_id,
            expires: self.expires,
        }
    }

    /// The snapshot after folding one event into `self`.
    ///
    /// `Assigned` overwrites identity, parties and expiry (it is folded onto
    /// the empty instance when replaying a creation); the three terminal
    /// events set the status; `TimeAdded` extends the expiry, saturating at
    /// the representable range, and leaves a never-expiring instance alone.
    pub open spec fn spec_apply(self, event: TaskEvent) -> TaskInstance {
        match event {
            TaskEvent::Assigned { id, assigned_to, assigned_by, task, expires } => TaskInstance {
                id,
                catalogue_id: task,
                assigned_to,
                assigned_by,
                expires,
                ..self
            },
            TaskEvent::Finished { .. } => TaskInstance { status: TaskStatus::Finished, ..self },
            TaskEvent::TimeAdded { task_id: _, duration } => match self.expires {
                Some(cur) => TaskInstance {
                    expires: Some(spec_sat_add(cur as int, duration as int) as i64),
                    ..self
                },
                None => self,
            },
            TaskEvent::Rejected { .. } => TaskInstance { status: TaskStatus::Rejected, ..self },
            TaskEvent::Expired { .. } => TaskInstance { status: TaskStatus::Expired, ..self },
        }
    }

    pub fn new(
        id: TaskId,
        assigned_to: AccountId,
        assigned_by: AccountId,
        expires: Option<i64>,
        task: CatalogueTaskId,
        status: TaskStatus,
    ) -> (r: Result<TaskInstance, TaskDomainError>)
        ensures
            r == Ok::<TaskInstance, TaskDomainError>(
                TaskInstance { id, catalogue_id: task, assigned_to, assigned_by, expires, status },
            ),
    {
        Ok(TaskInstance { id, catalogue_id: task, assigned_to, assigned_by, expires, status })
    }

    /// The `Assigned` event that records this instance's creation.
    pub fn create(&self) -> (r: TaskEvent)
        ensures
            r == self.spec_create(),
    {
        TaskEvent::Assigned {
            id: self.id,
            assigned_to: self.assigned_to,
            assigned_by: self.assigned_by,
            task: self.catalogue_id,
            expires: self.expires,
        }
    }

    /// Mark the assignment done. Only the assignee may, and only while the
    /// instance is still `Pending`.
    pub fn finish(&self, requesting_account: AccountId) -> (r: Result<TaskEvent, TaskDomainError>)
        ensures
            requesting_account != self.assigned_to ==> r == Err::<TaskEvent, TaskDomainError>(
                TaskDomainError::NotAuthorized,
            ),
            requesting_account == self.assigned_to && self.status is Pending ==> r == Ok::<
                TaskEvent,
                TaskDomainError,
            >(TaskEvent::Finished { task_id: self.id }),
            requesting_account == self.assigned_to && !(self.status is Pending) ==> r == Err::<
                TaskEvent,
                TaskDomainError,
            >(TaskDomainError::StatusNotApplicable),
    {
        if requesting_account != self.assigned_to {
            return Err(TaskDomainError::NotAuthorized);
        }
        match self.status {
            TaskStatus::Pending => Ok(TaskEvent::Finished { task_id: self.id }),
            TaskStatus::Finished | TaskStatus::Rejected | TaskStatus::Expired => Err(
                TaskDomainError::StatusNotApplicable,
            ),
        }
    }

    /// Turn the assignment down. Same actor and status rules as `finish`.
    pub fn reject(&self, requesting_account: AccountId) -> (r: Result<TaskEvent, TaskDomainError>)
        ensures
            requesting_account != self.assigned_to ==> r == Err::<TaskEvent, TaskDomainError>(
                TaskDomainError::NotAuthorized,
            ),
            requesting_account == self.assigned_to && self.status is Pending ==> r == Ok::<
                TaskEvent,
                TaskDomainError,
            >(TaskEvent::Rejected { task_id: self.id, assigned_by: self.assigned_by }),
            requesting_account == self.assigned_to && !(self.status is Pending) ==> r == Err::<
                TaskEvent,
                TaskDomainError,
            >(TaskDomainError::StatusNotApplicable),
    {
        if requesting_account != self.assigned_to {
            return Err(TaskDomainError::NotAuthorized);
        }
        match self.status {
            TaskStatus::Pending => Ok(
                TaskEvent::Rejected { task_id: self.id, assigned_by: self.assigned_by },
            ),
            TaskStatus::Finished | TaskStatus::Rejected | TaskStatus::Expired => Err(
                TaskDomainError::StatusNotApplicable,
            ),
        }
    }

    /// System-initiated expiry: no actor check, valid only from `Pending`.
    pub fn expire(&self) -> (r: Result<TaskEvent, TaskDomainError>)
        ensures
            self.status is Pending ==> r == Ok::<TaskEvent, TaskDomainError>(
                TaskEvent::Expired { task_id: self.id, assigned_by: self.assigned_by },
            ),
            !(self.status is Pending) ==> r == Err::<TaskEvent, TaskDomainError>(
                TaskDomainError::StatusNotApplicable,
            ),
    {
        match self.status {
            TaskStatus::Pending => Ok(
                TaskEvent::Expired { task_id: self.id, assigned_by: self.assigned_by },
            ),
            TaskStatus::Finished | TaskStatus::Rejected | TaskStatus::Expired => Err(
                TaskDomainError::StatusNotApplicable,
            ),
        }
    }

    /// Extend the expiry by `time` milliseconds. Only the assigner may; an
    /// already expired instance and one without an expiry are refused.
    pub fn add_time(&self, requesting_account: AccountId, time: i64) -> (r: Result<
        TaskEvent,
        TaskDomainError,
    >)
        ensures
            requesting_account != self.assigned_by ==> r == Err::<TaskEvent, TaskDomainError>(
                TaskDomainError::NotAuthorized,
            ),
            requesting_account == self.assigned_by && self.status is Expired ==> r == Err::<
                TaskEvent,
                TaskDomainError,
            >(TaskDomainError::StatusNotApplicable),
            requesting_account == self.assigned_by && !(self.status is Expired)
                && self.expires is Some ==> r == Ok::<TaskEvent, TaskDomainError>(
                TaskEvent::TimeAdded { task_id: self.id, duration: time },
            ),
            requesting_account == self.assigned_by && !(self.status is Expired)
                && self.expires is None ==> r == Err::<TaskEvent, TaskDomainError>(
                TaskDomainError::TaskDoesNotExpire,
            ),
    {
        if requesting_account != self.assigned_by {
            return Err(TaskDomainError::NotAuthorized);
        }
        match self.status {
            TaskStatus::Expired => Err(TaskDomainError::StatusNotApplicable),
            _ => match self.expires {
                Some(_) => Ok(TaskEvent::TimeAdded { task_id: self.id, duration: time }),
                None => Err(TaskDomainError::TaskDoesNotExpire),
            },
        }
    }

    /// Fold one event into this snapshot: the sole mutator.
    pub fn apply(self, event: &TaskEvent) -> (r: Self)
        ensures
            r == self.spec_apply(*event),
    {
        match event {
            TaskEvent::Assigned { id, assigned_to, assigned_by, task, expires } => TaskInstance {
                id: *id,
                catalogue_id: *task,
                assigned_to: *assigned_to,
                assigned_by: *assigned_by,
                expires: *expires,
                ..self
            },
            TaskEvent::Finished { .. } => TaskInstance { status: TaskStatus::Finished, ..self },
            TaskEvent::TimeAdded { task_id: _, duration } => match self.expires {
                Some(cur) => TaskInstance { expires: Some(sat_add(cur, *duration)), ..self },
                None => self,
            },
            TaskEvent::Rejected { .. } => TaskInstance { status: TaskStatus::Rejected, ..self },
            TaskEvent::Expired { .. } => TaskInstance { status: TaskStatus::Expired, ..self },
        }
    }

    /// Fold a whole history, oldest first, starting from `init`.
    pub open spec fn spec_replay(init: TaskInstance, events: Seq<TaskEvent>) -> TaskInstance
        decreases events.len(),
    {
        if events.len() == 0 {
            init
        } else {
            Self::spec_replay(init.spec_apply(events[0]), events.drop_first())
        }
    }

    /// Reconstruct an instance from its persisted history, oldest first,
    /// starting from the empty instance.
    pub fn replay(events: &Vec<TaskEvent>) -> (r: TaskInstance)
        ensures
            r == Self::spec_replay(Self::spec_default(), events@),
    {
        let mut acc = TaskInstance::default();
        let mut i: usize = 0;
        while i < events.len()
            invariant
                0 <= i <= events@.len(),
                acc == Self::spec_replay(Self::spec_default(), events@.take(i as int)),
            decreases events@.len() - i,
        {
            proof {
                lemma_replay_snoc(Self::spec_default(), events@.take(i as int), events@[i as int]);
                assert(events@.take(i as int).push(events@[i as int]) =~= events@.take(
                    i as int + 1,
                ));
            }
            acc = acc.apply(&events[i]);
            i = i + 1;
        }
        proof {
            assert(events@.take(events@.len() as int) =~= events@);
        }
        acc
    }
}

impl Default for TaskInstance {
    /// The empty instance that replays start from.
    fn default() -> (r: Self)
        ensures
            r == Self::spec_default(),
    {
        TaskInstance {
            id: TaskId(0),
            catalogue_id: CatalogueTaskId(0),
            assigned_to: AccountId(0),
            assigned_by: AccountId(0),
            expires: None,
            status: TaskStatus::Pending,
        }
    }
}

/// Folding one more event equals applying it to the folded prefix.
pub proof fn lemma_replay_snoc(init: TaskInstance, events: Seq<TaskEvent>, event: TaskEvent)
    ensures
        TaskInstance::spec_replay(init, events.push(event)) == TaskInstance::spec_replay(
            init,
            events,
        ).spec_apply(event),
    decreases events.len(),
{
    if events.len() == 0 {
        assert(events.push(event)[0] == event);
        assert(events.push(event).drop_first() =~= Seq::<TaskEvent>::empty());
        assert(TaskInstance::spec_replay(init, events.push(event)) == TaskInstance::spec_replay(
            init.spec_apply(event),
            Seq::<TaskEvent>::empty(),
        ));
        assert(TaskInstance::spec_replay(init.spec_apply(event), Seq::<TaskEvent>::empty())
            == init.spec_apply(event));
        assert(TaskInstance::spec_replay(init, events) == init);
    } else {
        assert(events.push(event)[0] == events[0]);
        assert(events.push(event).drop_first() =~= events.drop_first().push(event));
        assert(TaskInstance::spec_replay(init, events.push(event)) == TaskInstance::spec_replay(
            init.spec_apply(events[0]),
            events.drop_first().push(event),
        ));
        lemma_replay_snoc(init.spec_apply(events[0]), events.drop_first(), event);
        assert(TaskInstance::spec_replay(init, events) == TaskInstance::spec_replay(
            init.spec_apply(events[0]),
            events.drop_first(),
        ));
    }
}

/// A terminal lifecycle event is idempotent under `apply`: folding the same
/// `Finished`, `Rejected` or `Expired` fact in twice leaves the state the
/// first fold produced.
pub proof fn lemma_terminal_event_idempotent(t: TaskInstance, event: TaskEvent)
    requires
        event is Finished || event is Rejected || event is Expired,
    ensures
        t.spec_apply(event).spec_apply(event) == t.spec_apply(event),
{
}

/// Round trip of the event-sourcing contract: replaying an instance's full
/// recorded history from the empty instance — its creation fact followed by
/// the later lifecycle events — reproduces exactly the state reached by
/// applying those events to the instance held in memory.
pub proof fn lemma_replay_round_trip(t: TaskInstance, events: Seq<TaskEvent>)
    requires
        t.status is Pending,
    ensures
        TaskInstance::spec_replay(
            TaskInstance::spec_default(),
            seq![t.spec_create()] + events,
        ) == TaskInstance::spec_replay(t, events),
{
    let history = seq![t.spec_create()] + events;
    assert(history.drop_first() =~= events);
    assert(TaskInstance::spec_default().spec_apply(t.spec_create()) == t);
}

} // verus!

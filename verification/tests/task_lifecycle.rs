use orgtasks::events::TaskEvent;
use orgtasks::ids::{AccountId, CatalogueTaskId, TaskId};
use orgtasks::task::{TaskDomainError, TaskInstance, TaskStatus};

fn pending_task() -> TaskInstance {
    TaskInstance::new(
        TaskId(10),
        AccountId(1),
        AccountId(2),
        None,
        CatalogueTaskId(7),
        TaskStatus::Pending,
    )
    .unwrap()
}

fn expiring_task() -> TaskInstance {
    TaskInstance::new(
        TaskId(10),
        AccountId(1),
        AccountId(2),
        Some(1_000),
        CatalogueTaskId(7),
        TaskStatus::Pending,
    )
    .unwrap()
}

#[test]
fn finish_succeeds_once_from_pending() {
    let task = pending_task();
    let event = task.finish(AccountId(1)).unwrap();
    assert_eq!(event, TaskEvent::Finished { task_id: TaskId(10) });
    let finished = task.apply(&event);
    assert_eq!(finished.status, TaskStatus::Finished);
    assert_eq!(
        finished.finish(AccountId(1)),
        Err(TaskDomainError::StatusNotApplicable)
    );
}

#[test]
fn reject_emits_rejected_with_assigner() {
    let task = pending_task();
    let event = task.reject(AccountId(1)).unwrap();
    assert_eq!(
        event,
        TaskEvent::Rejected { task_id: TaskId(10), assigned_by: AccountId(2) }
    );
    assert_eq!(task.apply(&event).status, TaskStatus::Rejected);
}

#[test]
fn expire_needs_no_actor() {
    let task = pending_task();
    let event = task.expire().unwrap();
    assert_eq!(
        event,
        TaskEvent::Expired { task_id: TaskId(10), assigned_by: AccountId(2) }
    );
    assert_eq!(task.apply(&event).status, TaskStatus::Expired);
}

#[test]
fn terminal_statuses_reject_all_lifecycle_commands() {
    for status in [TaskStatus::Finished, TaskStatus::Rejected, TaskStatus::Expired] {
        let task = TaskInstance::new(
            TaskId(10),
            AccountId(1),
            AccountId(2),
            None,
            CatalogueTaskId(7),
            status,
        )
        .unwrap();
        assert_eq!(task.finish(AccountId(1)), Err(TaskDomainError::StatusNotApplicable));
        assert_eq!(task.reject(AccountId(1)), Err(TaskDomainError::StatusNotApplicable));
        assert_eq!(task.expire(), Err(TaskDomainError::StatusNotApplicable));
    }
}

#[test]
fn wrong_account_is_not_authorized_regardless_of_status() {
    for status in [
        TaskStatus::Pending,
        TaskStatus::Finished,
        TaskStatus::Rejected,
        TaskStatus::Expired,
    ] {
        let task = TaskInstance::new(
            TaskId(10),
            AccountId(1),
            AccountId(2),
            None,
            CatalogueTaskId(7),
            status,
        )
        .unwrap();
        assert_eq!(task.finish(AccountId(99)), Err(TaskDomainError::NotAuthorized));
        assert_eq!(task.reject(AccountId(99)), Err(TaskDomainError::NotAuthorized));
    }
}

#[test]
fn replaying_a_terminal_event_twice_stays_put() {
    let task = pending_task();
    let event = task.finish(AccountId(1)).unwrap();
    let once = task.clone().apply(&event);
    let twice = once.clone().apply(&event);
    assert_eq!(once, twice);
}

#[test]
fn add_time_requires_the_assigner() {
    let task = expiring_task();
    assert_eq!(
        task.add_time(AccountId(1), 500),
        Err(TaskDomainError::NotAuthorized)
    );
    assert_eq!(
        task.add_time(AccountId(2), 500),
        Ok(TaskEvent::TimeAdded { task_id: TaskId(10), duration: 500 })
    );
}

#[test]
fn add_time_refuses_expired_instances() {
    let task = expiring_task().apply(&TaskEvent::Expired {
        task_id: TaskId(10),
        assigned_by: AccountId(2),
    });
    assert_eq!(
        task.add_time(AccountId(2), 500),
        Err(TaskDomainError::StatusNotApplicable)
    );
}

#[test]
fn add_time_refuses_instances_without_expiry() {
    let task = pending_task();
    assert_eq!(
        task.add_time(AccountId(2), 500),
        Err(TaskDomainError::TaskDoesNotExpire)
    );
}

#[test]
fn time_added_extends_the_expiry() {
    let task = expiring_task();
    let event = task.add_time(AccountId(2), 500).unwrap();
    let extended = task.apply(&event);
    assert_eq!(extended.expires, Some(1_500));
    let unbounded = pending_task().apply(&event);
    assert_eq!(unbounded.expires, None);
}

#[test]
fn time_added_saturates_at_the_representable_range() {
    let task = TaskInstance::new(
        TaskId(10),
        AccountId(1),
        AccountId(2),
        Some(i64::MAX - 1),
        CatalogueTaskId(7),
        TaskStatus::Pending,
    )
    .unwrap();
    let event = TaskEvent::TimeAdded { task_id: TaskId(10), duration: 10 };
    assert_eq!(task.apply(&event).expires, Some(i64::MAX));
}

#[test]
fn replay_reproduces_the_in_memory_state() {
    let task = expiring_task();
    let mut live = task.clone();
    let mut history = vec![task.create()];
    let extension = live.add_time(AccountId(2), 250).unwrap();
    live = live.apply(&extension);
    history.push(extension);
    let finish = live.finish(AccountId(1)).unwrap();
    live = live.apply(&finish);
    history.push(finish);

    let replayed = TaskInstance::replay(&history);
    assert_eq!(replayed.status, live.status);
    assert_eq!(replayed.assigned_to, live.assigned_to);
    assert_eq!(replayed.expires, live.expires);
    assert_eq!(replayed, live);
    assert_eq!(replayed.expires, Some(1_250));
    assert_eq!(replayed.status, TaskStatus::Finished);
}

#[test]
fn replay_of_a_creation_event_rebuilds_the_instance() {
    let task = expiring_task();
    let replayed = TaskInstance::replay(&vec![task.create()]);
    assert_eq!(replayed, task);
}

//! Immutable, append-only facts. Events are the only legitimate mutation
//! channel: commands validate and emit them, a fold (`apply`) performs the
//! state change, both online and when replaying persisted history.
//!
//! Timestamps and durations are carried as milliseconds, as plain `i64`
//! values; the boundary that talks to a calendar library converts.

use vstd::prelude::*;

use crate::ids::{AccountId, CatalogueTaskId, OrganizationId, TagId, TaskId};

verus! {

/// Lifecycle facts of one task instance.
#[derive(Debug, Clone, PartialEq)]
pub enum TaskEvent {
    Assigned {
        id: TaskId,
        assigned_to: AccountId,
        assigned_by: AccountId,
        task: CatalogueTaskId,
        expires: Option<i64>,
    },
    Finished {
        task_id: TaskId,
    },
    TimeAdded {
        task_id: TaskId,
        duration: i64,
    },
    Rejected {
        task_id: TaskId,
        assigned_by: AccountId,
    },
    Expired {
        task_id: TaskId,
        assigned_by: AccountId,
    },
}

/// Membership and tag facts of one organization.
#[derive(Debug, Clone, PartialEq)]
pub enum OrganizationEvent {
    Created {
        id: OrganizationId,
        name: String,
    },
    TagAdded {
        organization_id: OrganizationId,
        tag_id: TagId,
        name: String,
    },
    EditorAddedToTag {
        tag_id: TagId,
        account: AccountId,
    },
    WorkerAddedToTag {
        tag_id: TagId,
        account: AccountId,
    },
    TagRemoverd {
        tag: TagId,
    },
    AccountLinked {
        account: AccountId,
        account_type: crate::organization::AccountType,
    },
}

} // verus!

//! The command surface the outer application layer hands to the
//! orchestration service, and the service's combined error type.
//!
//! The orchestration itself — load a snapshot through a repository port,
//! invoke the pure command, persist the produced events — performs I/O and
//! lives outside this crate; the commands here are its plain inputs.

use vstd::prelude::*;

use crate::ids::{AccountId, CatalogueTaskId, OrganizationId, TagId, TaskId};
use crate::organization::{AccountType, OrganizationError, TaskAssignmentType};
use crate::task::TaskDomainError;

verus! {

/// Found a new organization on behalf of `requesting_account`.
#[derive(Debug, Clone)]
pub struct CreateOrgCommand {
    pub name: String,
    pub requesting_account: AccountId,
}

/// Link `account` to `organization` with the given type.
#[derive(Debug, Clone)]
pub struct AccountLinkCommand {
    pub orgainzation: OrganizationId,
    pub requesting_account: AccountId,
    pub account: AccountId,
    pub account_type: AccountType,
}

/// Close out a task instance; reused for rejection.
#[derive(Debug, Clone)]
pub struct FinishTaskCommand {
    pub task: TaskId,
    pub requesting_account: AccountId,
}

/// Distribute catalogue tasks over the workers of the requested tags.
#[derive(Debug, Clone)]
pub struct AssignTaskCommand {
    pub organization: OrganizationId,
    pub tasks: Vec<CatalogueTaskId>,
    pub requesting_account: AccountId,
    pub assignment_type: TaskAssignmentType,
    pub tags: Vec<TagId>,
}

/// A failure of either aggregate, surfaced unchanged by the orchestration
/// service.
#[derive(Debug, Clone, Copy, PartialEq, Eq, Structural)]
pub enum ManagementError {
    TaskError(TaskDomainError),
    OrganizationError(OrganizationError),
}

} // verus!

//! Event-sourced domain model for organizations that assign catalogued work
//! items ("tasks") to member accounts.
//!
//! The `Organization` aggregate holds membership, tags and the task
//! distribution policy; the `TaskInstance` aggregate is the per-assignment
//! state machine. Commands never mutate state: they validate and return
//! events (or freshly minted task instances), and a dedicated `apply`
//! function folds events into state, both online and during replay.

pub mod assignment;
pub mod catalogue;
pub mod events;
pub mod ids;
pub mod organization;
pub mod service;
pub mod task;

pub use ids::{AccountId, CatalogueTaskId, OrganizationId, TagId, TaskId};
pub use events::{OrganizationEvent, TaskEvent};
pub use organization::{
    AccountLink, AccountType, Organization, OrganizationError, Tag, TaskAssignmentType,
};
pub use task::{TaskDomainError, TaskInstance, TaskStatus};

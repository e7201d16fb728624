//! The catalogue of task definitions: an externally stored, keyed record of
//! what a task is (title and description). Task instances reference a
//! catalogue entry by identifier.

use vstd::prelude::*;

use crate::ids::{AccountId, CatalogueTaskId, OrganizationId};

verus! {

/// An immutable task definition, managed by a simple keyed store.
#[derive(Debug, Clone, PartialEq)]
pub struct CatalogueTask {
    pub id: CatalogueTaskId,
    pub organization: OrganizationId,
    pub created_by: AccountId,
    pub title: String,
    pub description: String,
}

/// Inputs for creating a catalogue task; the store mints the identifier.
#[derive(Debug, Clone)]
pub struct CreateTaskCommand {
    pub organization: OrganizationId,
    pub created_by: AccountId,
    pub title: String,
    pub description: String,
}

impl CreateTaskCommand {
    /// The catalogue record this command describes, under a fresh
    /// identifier.
    pub fn into_task(self) -> (r: CatalogueTask)
        ensures
            r.organization == self.organization,
            r.created_by == self.created_by,
            r.title == self.title,
            r.description == self.description,
    {
        CatalogueTask {
            id: CatalogueTaskId::new(),
            organization: self.organization,
            created_by: self.created_by,
            title: self.title,
            description: self.description,
        }
    }
}

} // verus!

//! Sortable, globally unique identifiers for the aggregates of the domain.
//!
//! Each identifier wraps a 128-bit value. Equality and ordering are by the
//! underlying value; a fresh value comes from the `ulid` crate, a stored one
//! through the deterministic constructor.

use vstd::prelude::*;

verus! {

/// Relies on ulid::Ulid::new for a freshly generated, time-sortable,
/// effectively unique 128-bit value. The value depends on the clock and on
/// randomness, so nothing is promised of it.
#[verifier::external_body]
fn fresh_ulid() -> u128 {
    ulid::Ulid::new().0
}

/// Identifier of an [`crate::organization::Organization`].
#[derive(Debug, Clone, Copy, PartialEq, Eq, Structural, PartialOrd, Hash)]
pub struct OrganizationId(pub u128);

impl OrganizationId {
    pub fn new() -> OrganizationId {
        OrganizationId(fresh_ulid())
    }

    /// The underlying 128-bit value, for storage.
    pub fn value(&self) -> (r: u128)
        ensures
            r == self.0,
    {
        self.0
    }
}

/// Identifier of a tag within an organization.
#[derive(Debug, Clone, Copy, PartialEq, Eq, Structural, PartialOrd, Ord, Hash)]
pub struct TagId(pub u128);

impl TagId {
    pub fn new() -> TagId {
        TagId(fresh_ulid())
    }
}

/// Identifier of an account.
#[derive(Debug, Clone, Copy, PartialEq, Eq, Structural, PartialOrd, Ord, Hash)]
pub struct AccountId(pub u128);

impl AccountId {
    pub fn new() -> AccountId {
        AccountId(fresh_ulid())
    }

    /// The underlying 128-bit value, for storage.
    pub fn value(&self) -> (r: u128)
        ensures
            r == self.0,
    {
        self.0
    }
}

/// Identifier of a task instance (one concrete assignment).
#[derive(Debug, Clone, Copy, PartialEq, Eq, Structural, PartialOrd, Hash)]
pub struct TaskId(pub u128);

impl TaskId {
    pub fn new() -> TaskId {
        TaskId(fresh_ulid())
    }

    /// The underlying 128-bit value, for storage.
    pub fn value(&self) -> (r: u128)
        ensures
            r == self.0,
    {
        self.0
    }
}

/// Identifier of a catalogue task definition.
#[derive(Debug, Clone, Copy, PartialEq, Eq, Structural, PartialOrd, Hash)]
pub struct CatalogueTaskId(pub u128);

impl CatalogueTaskId {
    pub fn new() -> CatalogueTaskId {
        CatalogueTaskId(fresh_ulid())
    }

    /// The underlying 128-bit value, for storage.
    pub fn value(&self) -> (r: u128)
        ensures
            r == self.0,
    {
        self.0
    }
}

} // verus!

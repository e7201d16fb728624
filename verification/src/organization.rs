//! The organization aggregate: membership, tags and the task-assignment
//! policy.
//!
//! Commands take the current reconstructed snapshot by reference and return
//! events or a typed error; they never mutate in place. Editor and worker
//! rosters are kept as plain lists read as sets: membership is what the
//! contracts speak of.

use vstd::prelude::*;

use crate::events::OrganizationEvent;
use crate::ids::{AccountId, CatalogueTaskId, OrganizationId, TagId, TaskId};
use crate::task::TaskDomainError;

verus! {

/// Role of a linked account; it governs who may link accounts and assign
/// tasks to third parties.
#[derive(Debug, Clone, Copy, PartialEq, Eq, Structural, Hash)]
pub enum AccountType {
    Worker,
    Admin,
    Owner,
}

/// Failures of organization commands.
#[derive(Debug, Clone, Copy, PartialEq, Eq, Structural)]
pub enum OrganizationError {
    /// An organization with no linked account cannot be created.
    CannotCreate,
    /// A tag with the requested name already exists.
    TagAlreadyExists,
    /// The requested tag is not part of this organization.
    TagDoesNotExist,
    /// The requested tags have no eligible worker to assign to.
    NoWorkers,
    /// A failure surfaced while constructing task instances.
    TaskError(TaskDomainError),
    /// The requesting account may not perform this command.
    NotAuthorized,
    /// The requesting account is not linked to this organization.
    NotInOrg,
    /// A repeating task carries an invalid date.
    InvalidRepeatingTask,
}

/// How a batch of catalogue tasks is distributed over the eligible workers.
#[derive(Debug, Clone, Copy, PartialEq, Eq, Structural)]
pub enum TaskAssignmentType {
    /// Each task goes to a uniformly drawn eligible worker.
    Random,
    /// Every eligible worker receives every task.
    Copy,
    /// Each task goes to the eligible worker with the fewest tasks so far.
    LowestTasks,
    /// Each task goes to the eligible worker with the most tasks so far.
    HighestTasks,
    /// Every task goes to the one named account, which must be eligible.
    ToAccount { account: AccountId },
}

/// An organization-scoped grouping of workers, with the accounts authorized
/// to edit it.
#[derive(Debug, Clone, PartialEq)]
pub struct Tag {
    pub id: TagId,
    pub name: String,
    pub authorized_editors: Vec<AccountId>,
    pub workers: Vec<AccountId>,
}

impl Tag {
    pub fn new(
        id: TagId,
        name: String,
        authorized_editors: Vec<AccountId>,
        workers: Vec<AccountId>,
    ) -> (r: Tag)
        ensures
            r.id == id,
            r.name == name,
            r.authorized_editors == authorized_editors,
            r.workers == workers,
    {
        Tag { id, name, authorized_editors, workers }
    }
}

/// Membership record of one account in one organization, with the task
/// instances routed to it so far.
#[derive(Debug, Clone, PartialEq)]
pub struct AccountLink {
    pub account: AccountId,
    pub account_type: AccountType,
    pub tasks: Vec<TaskId>,
}

impl AccountLink {
    pub fn new(account: AccountId, account_type: AccountType, tasks: Vec<TaskId>) -> (r:
        AccountLink)
        ensures
            r.account == account,
            r.account_type == account_type,
            r.tasks == tasks,
    {
        AccountLink { account, account_type, tasks }
    }
}

/// The first link of `account`, if any: commands go by the earliest
/// membership record.
pub open spec fn find_link(links: Seq<AccountLink>, account: AccountId) -> Option<AccountLink>
    decreases links.len(),
{
    if links.len() == 0 {
        None
    } else if links[0].account == account {
        Some(links[0])
    } else {
        find_link(links.drop_first(), account)
    }
}

/// The first tag with identifier `id`, if any.
pub open spec fn find_tag(tags: Seq<Tag>, id: TagId) -> Option<Tag>
    decreases tags.len(),
{
    if tags.len() == 0 {
        None
    } else if tags[0].id == id {
        Some(tags[0])
    } else {
        find_tag(tags.drop_first(), id)
    }
}

/// Some tag already carries this name.
pub open spec fn has_tag_named(tags: Seq<Tag>, name: Seq<char>) -> bool {
    exists|i: int| 0 <= i < tags.len() && tags[i].name@ == name
}

/// Some link of `account` carries a type other than `Worker`.
pub open spec fn has_admin_link(links: Seq<AccountLink>, account: AccountId) -> bool {
    exists|i: int|
        0 <= i < links.len() && links[i].account == account && links[i].account_type
            != AccountType::Worker
}

proof fn lemma_find_link_at(links: Seq<AccountLink>, account: AccountId, i: int)
    requires
        0 <= i < links.len(),
        links[i].account == account,
        forall|j: int| 0 <= j < i ==> links[j].account != account,
    ensures
        find_link(links, account) == Some(links[i]),
    decreases i,
{
    if i > 0 {
        lemma_find_link_at(links.drop_first(), account, i - 1);
    }
}

proof fn lemma_find_link_none(links: Seq<AccountLink>, account: AccountId)
    requires
        forall|j: int| 0 <= j < links.len() ==> links[j].account != account,
    ensures
        find_link(links, account) is None,
    decreases links.len(),
{
    if links.len() > 0 {
        lemma_find_link_none(links.drop_first(), account);
    }
}

proof fn lemma_find_tag_at(tags: Seq<Tag>, id: TagId, i: int)
    requires
        0 <= i < tags.len(),
        tags[i].id == id,
        forall|j: int| 0 <= j < i ==> tags[j].id != id,
    ensures
        find_tag(tags, id) == Some(tags[i]),
    decreases i,
{
    if i > 0 {
        lemma_find_tag_at(tags.drop_first(), id, i - 1);
    }
}

proof fn lemma_find_tag_none(tags: Seq<Tag>, id: TagId)
    requires
        forall|j: int| 0 <= j < tags.len() ==> tags[j].id != id,
    ensures
        find_tag(tags, id) is None,
    decreases tags.len(),
{
    if tags.len() > 0 {
        lemma_find_tag_none(tags.drop_first(), id);
    }
}

/// Index of the first link of `account`.
pub(crate) fn find_link_index(links: &Vec<AccountLink>, account: AccountId) -> (r: Option<usize>)
    ensures
        match r {
            Some(i) => i < links@.len() && links@[i as int].account == account && find_link(
                links@,
                account,
            ) == Some(links@[i as int]),
            None => find_link(links@, account) is None,
        },
{
    let mut i: usize = 0;
    while i < links.len()
        invariant
            0 <= i <= links@.len(),
            forall|j: int| 0 <= j < i ==> links@[j].account != account,
        decreases links@.len() - i,
    {
        if links[i].account == account {
            proof {
                lemma_find_link_at(links@, account, i as int);
            }
            return Some(i);
        }
        i = i + 1;
    }
    proof {
        lemma_find_link_none(links@, account);
    }
    None
}

/// Index of the first tag with identifier `id`.
pub(crate) fn find_tag_index(tags: &Vec<Tag>, id: TagId) -> (r: Option<usize>)
    ensures
        match r {
            Some(i) => i < tags@.len() && tags@[i as int].id == id && find_tag(tags@, id) == Some(
                tags@[i as int],
            ),
            None => find_tag(tags@, id) is None,
        },
{
    let mut i: usize = 0;
    while i < tags.len()
        invariant
            0 <= i <= tags@.len(),
            forall|j: int| 0 <= j < i ==> tags@[j].id != id,
        decreases tags@.len() - i,
    {
        if tags[i].id == id {
            proof {
                lemma_find_tag_at(tags@, id, i as int);
            }
            return Some(i);
        }
        i = i + 1;
    }
    proof {
        lemma_find_tag_none(tags@, id);
    }
    None
}

/// Whether `v`, read as a set, holds `account`.
pub(crate) fn contains_account(v: &Vec<AccountId>, account: AccountId) -> (r: bool)
    ensures
        r == v@.contains(account),
{
    let mut i: usize = 0;
    while i < v.len()
        invariant
            0 <= i <= v@.len(),
            forall|j: int| 0 <= j < i ==> v@[j] != account,
        decreases v@.len() - i,
    {
        if v[i] == account {
            assert(v@[i as int] == account);
            return true;
        }
        i = i + 1;
    }
    false
}

/// Whether `v`, read as a set, holds `id`.
pub(crate) fn contains_tag_id(v: &Vec<TagId>, id: TagId) -> (r: bool)
    ensures
        r == v@.contains(id),
{
    let mut i: usize = 0;
    while i < v.len()
        invariant
            0 <= i <= v@.len(),
            forall|j: int| 0 <= j < i ==> v@[j] != id,
        decreases v@.len() - i,
    {
        if v[i] == id {
            assert(v@[i as int] == id);
            return true;
        }
        i = i + 1;
    }
    false
}

/// Membership, tags and assignment policy of one organization. A snapshot:
/// reconstructed per command from persisted events and discarded after the
/// command returns what it produced.
#[derive(Debug, Clone, PartialEq)]
pub struct Organization {
    pub id: OrganizationId,
    pub name: String,
    pub tags: Vec<Tag>,
    pub linked_accounts: Vec<AccountLink>,
}

/// The shape `Organization::create` hands back: no tags yet, and exactly one
/// link, making the creator the owner.
pub open spec fn is_fresh_creation(
    org: Organization,
    name: Seq<char>,
    account: AccountId,
) -> bool {
    &&& org.name@ == name
    &&& org.tags@.len() == 0
    &&& org.linked_accounts@.len() == 1
    &&& org.linked_accounts@[0].account == account
    &&& org.linked_accounts@[0].account_type == AccountType::Owner
    &&& org.linked_accounts@[0].tasks@.len() == 0
}

impl Organization {
    pub fn id(&self) -> (r: &OrganizationId)
        ensures
            *r == self.id,
    {
        &self.id
    }

    pub fn name(&self) -> (r: &str)
        ensures
            r@ == self.name@,
    {
        self.name.as_str()
    }

    /// Reassemble a stored snapshot.
    pub fn new(
        id: OrganizationId,
        name: String,
        tags: Vec<Tag>,
        linked_accounts: Vec<AccountLink>,
    ) -> (r: Result<Organization, OrganizationError>)
        ensures
            r matches Ok(org) && org.id == id && org.name == name && org.tags == tags
                && org.linked_accounts == linked_accounts,
    {
        Ok(Organization { id, name, tags, linked_accounts })
    }

    /// Found a new organization: a fresh identifier and a single `Owner`
    /// link for the creator.
    pub fn create(name: String, account: AccountId) -> (r: Result<
        Organization,
        OrganizationError,
    >)
        ensures
            r matches Ok(org) && is_fresh_creation(org, name@, account),
    {
        Ok(
            Organization {
                id: OrganizationId::new(),
                name,
                tags: Vec::new(),
                linked_accounts: vec![
                    AccountLink {
                        account,
                        account_type: AccountType::Owner,
                        tasks: Vec::new(),
                    },
                ],
            },
        )
    }

    /// The events that record this snapshot's creation: `Created`, then one
    /// `AccountLinked` per link, in order.
    pub open spec fn spec_create_events(self) -> Result<Seq<OrganizationEvent>, OrganizationError> {
        if self.linked_accounts@.len() == 0 {
            Err(OrganizationError::CannotCreate)
        } else {
            Ok(
                seq![OrganizationEvent::Created { id: self.id, name: self.name }]
                    + self.linked_accounts@.map(
                    |i: int, link: AccountLink|
                        OrganizationEvent::AccountLinked {
                            account: link.account,
                            account_type: link.account_type,
                        },
                ),
            )
        }
    }

    /// Turn a freshly created snapshot into its creation events. An
    /// organization with no linked account is invalid and cannot be
    /// recorded.
    pub fn into_create_event(&self) -> (r: Result<Vec<OrganizationEvent>, OrganizationError>)
        ensures
            self.linked_accounts@.len() == 0 ==> r == Err::<
                Vec<OrganizationEvent>,
                OrganizationError,
            >(OrganizationError::CannotCreate),
            self.linked_accounts@.len() > 0 ==> (r matches Ok(evs) && Ok::<
                Seq<OrganizationEvent>,
                OrganizationError,
            >(evs@) == self.spec_create_events()),
    {
        if self.linked_accounts.len() == 0 {
            return Err(OrganizationError::CannotCreate);
        }
        let ghost linked = self.linked_accounts@.map(
            |i: int, link: AccountLink|
                OrganizationEvent::AccountLinked {
                    account: link.account,
                    account_type: link.account_type,
                },
        );
        let mut events: Vec<OrganizationEvent> = Vec::new();
        events.push(OrganizationEvent::Created { id: self.id, name: self.name.clone() });
        let mut i: usize = 0;
        while i < self.linked_accounts.len()
            invariant
                0 <= i <= self.linked_accounts@.len(),
                linked == self.linked_accounts@.map(
                    |j: int, link: AccountLink|
                        OrganizationEvent::AccountLinked {
                            account: link.account,
                            account_type: link.account_type,
                        },
                ),
                events@.len() == i + 1,
                events@[0] == (OrganizationEvent::Created { id: self.id, name: self.name }),
                forall|j: int| 0 <= j < i ==> events@[j + 1] == linked[j],
            decreases self.linked_accounts@.len() - i,
        {
            let link = &self.linked_accounts[i];
            events.push(
                OrganizationEvent::AccountLinked {
                    account: link.account,
                    account_type: link.account_type,
                },
            );
            i = i + 1;
        }
        proof {
            assert(events@ =~= seq![
                OrganizationEvent::Created { id: self.id, name: self.name },
            ] + linked);
        }
        Ok(events)
    }

    /// Add a tag. The requester must already be linked; the name must be
    /// new. The requester becomes the tag's first authorized editor.
    pub fn add_tag(&self, name: String, requesting_account: AccountId) -> (r: Result<
        Vec<OrganizationEvent>,
        OrganizationError,
    >)
        ensures
            find_link(self.linked_accounts@, requesting_account) is None ==> r == Err::<
                Vec<OrganizationEvent>,
                OrganizationError,
            >(OrganizationError::NotAuthorized),
            find_link(self.linked_accounts@, requesting_account) is Some && has_tag_named(
                self.tags@,
                name@,
            ) ==> r == Err::<Vec<OrganizationEvent>, OrganizationError>(
                OrganizationError::TagAlreadyExists,
            ),
            find_link(self.linked_accounts@, requesting_account) is Some && !has_tag_named(
                self.tags@,
                name@,
            ) ==> (r matches Ok(evs) && evs@.len() == 2 && (evs@[0] matches
                OrganizationEvent::TagAdded {
                    organization_id,
                    tag_id,
                    name: event_name,
                } && organization_id == self.id && event_name@ == name@ && (evs@[1] matches
            OrganizationEvent::EditorAddedToTag {
                tag_id: editor_tag,
                account,
            } && editor_tag == tag_id && account == requesting_account))),
    {
        if find_link_index(&self.linked_accounts, requesting_account).is_none() {
            return Err(OrganizationError::NotAuthorized);
        }
        let mut i: usize = 0;
        while i < self.tags.len()
            invariant
                0 <= i <= self.tags@.len(),
                find_link(self.linked_accounts@, requesting_account) is Some,
                forall|j: int| 0 <= j < i ==> self.tags@[j].name@ != name@,
            decreases self.tags@.len() - i,
        {
            if self.tags[i].name == name {
                assert(self.tags@[i as int].name@ == name@);
                return Err(OrganizationError::TagAlreadyExists);
            }
            i = i + 1;
        }
        let id = TagId::new();
        Ok(
            vec![
                OrganizationEvent::TagAdded { organization_id: self.id, tag_id: id, name },
                OrganizationEvent::EditorAddedToTag { tag_id: id, account: requesting_account },
            ],
        )
    }

    /// Add `worker` to a tag's worker roster. The tag must exist and the
    /// requester must be one of its authorized editors.
    pub fn add_worker_to_tag(
        &self,
        tag_id: TagId,
        requesting_account: AccountId,
        worker: AccountId,
    ) -> (r: Result<OrganizationEvent, OrganizationError>)
        ensures
            find_tag(self.tags@, tag_id) is None ==> r == Err::<
                OrganizationEvent,
                OrganizationError,
            >(OrganizationError::TagDoesNotExist),
            find_tag(self.tags@, tag_id) matches Some(tag)
                && !tag.authorized_editors@.contains(requesting_account) ==> r == Err::<
                OrganizationEvent,
                OrganizationError,
            >(OrganizationError::NotAuthorized),
            find_tag(self.tags@, tag_id) matches Some(tag)
                && tag.authorized_editors@.contains(requesting_account) ==> r == Ok::<
                OrganizationEvent,
                OrganizationError,
            >(OrganizationEvent::WorkerAddedToTag { tag_id, account: worker }),
    {
        let tag_index = match find_tag_index(&self.tags, tag_id) {
            Some(i) => i,
            None => {
                return Err(OrganizationError::TagDoesNotExist);
            },
        };
        if !contains_account(&self.tags[tag_index].authorized_editors, requesting_account) {
            return Err(OrganizationError::NotAuthorized);
        }
        Ok(OrganizationEvent::WorkerAddedToTag { tag_id, account: worker })
    }

    /// Add `editor` to a tag's authorized editors. Same rules as
    /// `add_worker_to_tag`.
    pub fn add_editor_to_tag(
        &self,
        tag_id: TagId,
        requesting_account: AccountId,
        editor: AccountId,
    ) -> (r: Result<OrganizationEvent, OrganizationError>)
        ensures
            find_tag(self.tags@, tag_id) is None ==> r == Err::<
                OrganizationEvent,
                OrganizationError,
            >(OrganizationError::TagDoesNotExist),
            find_tag(self.tags@, tag_id) matches Some(tag)
                && !tag.authorized_editors@.contains(requesting_account) ==> r == Err::<
                OrganizationEvent,
                OrganizationError,
            >(OrganizationError::NotAuthorized),
            find_tag(self.tags@, tag_id) matches Some(tag)
                && tag.authorized_editors@.contains(requesting_account) ==> r == Ok::<
                OrganizationEvent,
                OrganizationError,
            >(OrganizationEvent::EditorAddedToTag { tag_id, account: editor }),
    {
        let tag_index = match find_tag_index(&self.tags, tag_id) {
            Some(i) => i,
            None => {
                return Err(OrganizationError::TagDoesNotExist);
            },
        };
        if !contains_account(&self.tags[tag_index].authorized_editors, requesting_account) {
            return Err(OrganizationError::NotAuthorized);
        }
        Ok(OrganizationEvent::EditorAddedToTag { tag_id, account: editor })
    }

    /// Link `worker` to the organization. The requester must hold a link of
    /// a type other than `Worker`, and ownership cannot be granted this way.
    pub fn link_account(
        &self,
        requesting_account: AccountId,
        worker: AccountId,
        link_type: AccountType,
    ) -> (r: Result<OrganizationEvent, OrganizationError>)
        ensures
            !has_admin_link(self.linked_accounts@, requesting_account) ==> r == Err::<
                OrganizationEvent,
                OrganizationError,
            >(OrganizationError::NotAuthorized),
            has_admin_link(self.linked_accounts@, requesting_account) && link_type
                == AccountType::Owner ==> r == Err::<OrganizationEvent, OrganizationError>(
                OrganizationError::NotAuthorized,
            ),
            has_admin_link(self.linked_accounts@, requesting_account) && link_type
                != AccountType::Owner ==> r == Ok::<OrganizationEvent, OrganizationError>(
                OrganizationEvent::AccountLinked { account: worker, account_type: link_type },
            ),
    {
        let mut i: usize = 0;
        let mut found = false;
        while i < self.linked_accounts.len()
            invariant
                0 <= i <= self.linked_accounts@.len(),
                found == exists|j: int|
                    0 <= j < i && self.linked_accounts@[j].account == requesting_account
                        && self.linked_accounts@[j].account_type != AccountType::Worker,
            decreases self.linked_accounts@.len() - i,
        {
            let link = &self.linked_accounts[i];
            if link.account == requesting_account && !matches!(link.account_type, AccountType::Worker) {
                assert(self.linked_accounts@[i as int].account == requesting_account
                    && self.linked_accounts@[i as int].account_type != AccountType::Worker);
                found = true;
            }
            i = i + 1;
        }
        if !found {
            return Err(OrganizationError::NotAuthorized);
        }
        if matches!(link_type, AccountType::Owner) {
            return Err(OrganizationError::NotAuthorized);
        }
        Ok(OrganizationEvent::AccountLinked { account: worker, account_type: link_type })
    }
}

/// Creating an organization always yields exactly a `Created` fact followed
/// by one `AccountLinked` fact that makes the creator the sole owner: the
/// recorded history of a fresh organization has length two, and the
/// organization has exactly one linked account.
pub proof fn lemma_creation_event_shape(org: Organization, name: Seq<char>, account: AccountId)
    requires
        is_fresh_creation(org, name, account),
    ensures
        org.linked_accounts@.len() == 1,
        org.spec_create_events() matches Ok(evs) && evs.len() == 2 && (evs[0] matches
            OrganizationEvent::Created { id, name: event_name } && id == org.id && event_name@
            == name) && evs[1] == (OrganizationEvent::AccountLinked {
            account,
            account_type: AccountType::Owner,
        }),
{
    let linked = org.linked_accounts@.map(
        |i: int, link: AccountLink|
            OrganizationEvent::AccountLinked {
                account: link.account,
                account_type: link.account_type,
            },
    );
    assert(linked.len() == 1);
    assert(linked[0] == (OrganizationEvent::AccountLinked {
        account,
        account_type: AccountType::Owner,
    }));
}

/// A future extension point: a recurring assignment, re-issued every
/// `period_days` days. No scheduling logic consumes it yet.
#[derive(Debug, Clone)]
pub struct RepeatingTask {
    pub id: u128,
    pub last_assigned: i64,
    pub requesting_account: AccountId,
    pub period_days: u64,
    pub assigned_to: AssignmentType,
    pub tasks: Vec<CatalogueTaskId>,
}

/// Target of a repeating assignment: one account, or a tag selection with a
/// distribution policy.
#[derive(Debug, Clone)]
pub enum AssignmentType {
    Account(AccountId),
    Tags { tags: Vec<TagId>, assignment_type: TaskAssignmentType },
}

} // verus!

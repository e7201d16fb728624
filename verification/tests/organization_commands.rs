use orgtasks::events::OrganizationEvent;
use orgtasks::ids::{AccountId, OrganizationId, TagId};
use orgtasks::organization::{
    AccountLink, AccountType, Organization, OrganizationError, Tag,
};

fn org_with(tags: Vec<Tag>, links: Vec<AccountLink>) -> Organization {
    Organization::new(OrganizationId(42), "acme".to_string(), tags, links).unwrap()
}

fn owner_link(account: AccountId) -> AccountLink {
    AccountLink::new(account, AccountType::Owner, Vec::new())
}

#[test]
fn creating_an_organization_links_exactly_the_owner() {
    let org = Organization::create("acme".to_string(), AccountId(1)).unwrap();
    assert_eq!(org.linked_accounts.len(), 1);
    assert_eq!(org.linked_accounts[0].account, AccountId(1));
    assert_eq!(org.linked_accounts[0].account_type, AccountType::Owner);
    assert!(org.tags.is_empty());

    let events = org.into_create_event().unwrap();
    assert_eq!(events.len(), 2);
    assert_eq!(
        events[0],
        OrganizationEvent::Created { id: org.id, name: "acme".to_string() }
    );
    assert_eq!(
        events[1],
        OrganizationEvent::AccountLinked {
            account: AccountId(1),
            account_type: AccountType::Owner,
        }
    );
}

#[test]
fn an_organization_without_links_cannot_be_recorded() {
    let org = org_with(Vec::new(), Vec::new());
    assert_eq!(org.into_create_event(), Err(OrganizationError::CannotCreate));
}

#[test]
fn add_tag_requires_a_linked_requester() {
    let org = org_with(Vec::new(), vec![owner_link(AccountId(1))]);
    assert_eq!(
        org.add_tag("crew".to_string(), AccountId(9)),
        Err(OrganizationError::NotAuthorized)
    );
}

#[test]
fn add_tag_rejects_a_duplicate_name() {
    let tag = Tag::new(TagId(5), "crew".to_string(), vec![AccountId(1)], Vec::new());
    let org = org_with(vec![tag], vec![owner_link(AccountId(1))]);
    assert_eq!(
        org.add_tag("crew".to_string(), AccountId(1)),
        Err(OrganizationError::TagAlreadyExists)
    );
}

#[test]
fn add_tag_makes_the_requester_the_first_editor() {
    let org = org_with(Vec::new(), vec![owner_link(AccountId(1))]);
    let events = org.add_tag("crew".to_string(), AccountId(1)).unwrap();
    assert_eq!(events.len(), 2);
    let tag_id = match &events[0] {
        OrganizationEvent::TagAdded { organization_id, tag_id, name } => {
            assert_eq!(*organization_id, OrganizationId(42));
            assert_eq!(name, "crew");
            *tag_id
        }
        other => panic!("expected TagAdded, got {other:?}"),
    };
    assert_eq!(
        events[1],
        OrganizationEvent::EditorAddedToTag { tag_id, account: AccountId(1) }
    );
}

#[test]
fn add_worker_to_tag_requires_an_existing_tag() {
    let org = org_with(Vec::new(), vec![owner_link(AccountId(1))]);
    assert_eq!(
        org.add_worker_to_tag(TagId(5), AccountId(1), AccountId(2)),
        Err(OrganizationError::TagDoesNotExist)
    );
}

#[test]
fn add_worker_to_tag_requires_an_authorized_editor() {
    let tag = Tag::new(TagId(5), "crew".to_string(), vec![AccountId(1)], Vec::new());
    let org = org_with(vec![tag], vec![owner_link(AccountId(1))]);
    assert_eq!(
        org.add_worker_to_tag(TagId(5), AccountId(3), AccountId(2)),
        Err(OrganizationError::NotAuthorized)
    );
    assert_eq!(
        org.add_worker_to_tag(TagId(5), AccountId(1), AccountId(2)),
        Ok(OrganizationEvent::WorkerAddedToTag { tag_id: TagId(5), account: AccountId(2) })
    );
}

#[test]
fn add_editor_to_tag_follows_the_same_rules() {
    let tag = Tag::new(TagId(5), "crew".to_string(), vec![AccountId(1)], Vec::new());
    let org = org_with(vec![tag], vec![owner_link(AccountId(1))]);
    assert_eq!(
        org.add_editor_to_tag(TagId(6), AccountId(1), AccountId(2)),
        Err(OrganizationError::TagDoesNotExist)
    );
    assert_eq!(
        org.add_editor_to_tag(TagId(5), AccountId(2), AccountId(2)),
        Err(OrganizationError::NotAuthorized)
    );
    assert_eq!(
        org.add_editor_to_tag(TagId(5), AccountId(1), AccountId(2)),
        Ok(OrganizationEvent::EditorAddedToTag { tag_id: TagId(5), account: AccountId(2) })
    );
}

#[test]
fn link_account_requires_a_non_worker_requester() {
    let links = vec![
        owner_link(AccountId(1)),
        AccountLink::new(AccountId(2), AccountType::Worker, Vec::new()),
    ];
    let org = org_with(Vec::new(), links);
    assert_eq!(
        org.link_account(AccountId(2), AccountId(3), AccountType::Worker),
        Err(OrganizationError::NotAuthorized)
    );
    assert_eq!(
        org.link_account(AccountId(9), AccountId(3), AccountType::Worker),
        Err(OrganizationError::NotAuthorized)
    );
    assert_eq!(
        org.link_account(AccountId(1), AccountId(3), AccountType::Admin),
        Ok(OrganizationEvent::AccountLinked {
            account: AccountId(3),
            account_type: AccountType::Admin,
        })
    );
}

#[test]
fn ownership_cannot_be_granted_by_linking() {
    let org = org_with(Vec::new(), vec![owner_link(AccountId(1))]);
    assert_eq!(
        org.link_account(AccountId(1), AccountId(3), AccountType::Owner),
        Err(OrganizationError::NotAuthorized)
    );
}

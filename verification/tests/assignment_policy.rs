use orgtasks::ids::{AccountId, CatalogueTaskId, OrganizationId, TagId};
use orgtasks::organization::{
    AccountLink, AccountType, Organization, OrganizationError, Tag, TaskAssignmentType,
};
use orgtasks::task::TaskStatus;

#[allow(non_snake_case)]
fn OWNER() -> AccountId { AccountId(1) }
#[allow(non_snake_case)]
fn A() -> AccountId { AccountId(2) }
#[allow(non_snake_case)]
fn B() -> AccountId { AccountId(3) }
#[allow(non_snake_case)]
fn C() -> AccountId { AccountId(4) }
#[allow(non_snake_case)]
fn T1() -> TagId { TagId(11) }
#[allow(non_snake_case)]
fn T2() -> TagId { TagId(12) }

/// Tags T1() (workers {A, B}) and T2() (workers {B, C}), edited by the owner;
/// all four accounts linked, workers with no prior tasks.
fn fixture() -> Organization {
    let tags = vec![
        Tag::new(T1(), "first".to_string(), vec![OWNER()], vec![A(), B()]),
        Tag::new(T2(), "second".to_string(), vec![OWNER()], vec![B(), C()]),
    ];
    let links = vec![
        AccountLink::new(OWNER(), AccountType::Owner, Vec::new()),
        AccountLink::new(A(), AccountType::Worker, Vec::new()),
        AccountLink::new(B(), AccountType::Worker, Vec::new()),
        AccountLink::new(C(), AccountType::Worker, Vec::new()),
    ];
    Organization::new(OrganizationId(42), "acme".to_string(), tags, links).unwrap()
}

fn three_tasks() -> Vec<CatalogueTaskId> {
    vec![CatalogueTaskId(100), CatalogueTaskId(101), CatalogueTaskId(102)]
}

#[test]
fn unlinked_requester_is_not_in_org() {
    let org = fixture();
    let result = org.assign_tasks_to_tags(
        &AccountId(99),
        &vec![T1()],
        &three_tasks(),
        &TaskAssignmentType::Random,
    );
    assert_eq!(result, Err(OrganizationError::NotInOrg));
}

#[test]
fn worker_outside_the_editor_set_is_not_authorized() {
    let org = fixture();
    let result = org.assign_tasks_to_tags(
        &A(),
        &vec![T1(), T2()],
        &three_tasks(),
        &TaskAssignmentType::LowestTasks,
    );
    assert_eq!(result, Err(OrganizationError::NotAuthorized));
}

#[test]
fn unknown_tags_resolve_to_nothing_and_fail_no_workers() {
    let org = fixture();
    let result = org.assign_tasks_to_tags(
        &OWNER(),
        &vec![TagId(77)],
        &three_tasks(),
        &TaskAssignmentType::Random,
    );
    assert_eq!(result, Err(OrganizationError::NoWorkers));
}

#[test]
fn disjoint_rosters_fail_no_workers() {
    let tags = vec![
        Tag::new(T1(), "first".to_string(), vec![OWNER()], vec![A()]),
        Tag::new(T2(), "second".to_string(), vec![OWNER()], vec![C()]),
    ];
    let links = vec![AccountLink::new(OWNER(), AccountType::Owner, Vec::new())];
    let org = Organization::new(OrganizationId(42), "acme".to_string(), tags, links).unwrap();
    let result = org.assign_tasks_to_tags(
        &OWNER(),
        &vec![T1(), T2()],
        &three_tasks(),
        &TaskAssignmentType::Random,
    );
    assert_eq!(result, Err(OrganizationError::NoWorkers));
}

#[test]
fn lowest_tasks_routes_the_whole_batch_to_the_sole_shared_worker() {
    let org = fixture();
    let instances = org
        .assign_tasks_to_tags(
            &OWNER(),
            &vec![T1(), T2()],
            &three_tasks(),
            &TaskAssignmentType::LowestTasks,
        )
        .unwrap();
    assert_eq!(instances.len(), 3);
    for (instance, task) in instances.iter().zip(three_tasks()) {
        assert_eq!(instance.assigned_to, B());
        assert_eq!(instance.assigned_by, OWNER());
        assert_eq!(instance.catalogue_id, task);
        assert_eq!(instance.status, TaskStatus::Pending);
        assert_eq!(instance.expires, None);
    }
}

#[test]
fn lowest_tasks_balances_equal_starts_within_one() {
    let org = fixture();
    let tasks: Vec<CatalogueTaskId> = (0u128..5).map(CatalogueTaskId).collect();
    let instances = org
        .assign_tasks_to_tags(&OWNER(), &vec![T1()], &tasks, &TaskAssignmentType::LowestTasks)
        .unwrap();
    let a_count = instances.iter().filter(|i| i.assigned_to == A()).count();
    let b_count = instances.iter().filter(|i| i.assigned_to == B()).count();
    assert_eq!(a_count + b_count, 5);
    assert!(a_count.abs_diff(b_count) <= 1);
    // Ties break on the first-listed worker, so the batch alternates.
    let picks: Vec<AccountId> = instances.iter().map(|i| i.assigned_to).collect();
    assert_eq!(picks, vec![A(), B(), A(), B(), A()]);
}

#[test]
fn lowest_tasks_prefers_the_least_loaded_worker() {
    let tags = vec![Tag::new(T1(), "first".to_string(), vec![OWNER()], vec![A(), B()])];
    let links = vec![
        AccountLink::new(OWNER(), AccountType::Owner, Vec::new()),
        AccountLink::new(A(), AccountType::Worker, vec![orgtasks::ids::TaskId(1), orgtasks::ids::TaskId(2)]),
        AccountLink::new(B(), AccountType::Worker, Vec::new()),
    ];
    let org = Organization::new(OrganizationId(42), "acme".to_string(), tags, links).unwrap();
    let instances = org
        .assign_tasks_to_tags(
            &OWNER(),
            &vec![T1()],
            &vec![CatalogueTaskId(100), CatalogueTaskId(101)],
            &TaskAssignmentType::LowestTasks,
        )
        .unwrap();
    assert_eq!(instances[0].assigned_to, B());
    assert_eq!(instances[1].assigned_to, B());
}

#[test]
fn highest_tasks_piles_onto_the_most_loaded_worker() {
    let tags = vec![Tag::new(T1(), "first".to_string(), vec![OWNER()], vec![A(), B()])];
    let links = vec![
        AccountLink::new(OWNER(), AccountType::Owner, Vec::new()),
        AccountLink::new(A(), AccountType::Worker, vec![orgtasks::ids::TaskId(1)]),
        AccountLink::new(B(), AccountType::Worker, Vec::new()),
    ];
    let org = Organization::new(OrganizationId(42), "acme".to_string(), tags, links).unwrap();
    let instances = org
        .assign_tasks_to_tags(
            &OWNER(),
            &vec![T1()],
            &vec![CatalogueTaskId(100), CatalogueTaskId(101)],
            &TaskAssignmentType::HighestTasks,
        )
        .unwrap();
    assert_eq!(instances[0].assigned_to, A());
    assert_eq!(instances[1].assigned_to, A());
}

#[test]
fn copy_fans_every_task_out_to_every_worker() {
    let org = fixture();
    let tasks = vec![CatalogueTaskId(100), CatalogueTaskId(101)];
    let instances = org
        .assign_tasks_to_tags(&OWNER(), &vec![T1()], &tasks, &TaskAssignmentType::Copy)
        .unwrap();
    assert_eq!(instances.len(), 4);
    let summary: Vec<(CatalogueTaskId, AccountId)> = instances
        .iter()
        .map(|i| (i.catalogue_id, i.assigned_to))
        .collect();
    assert_eq!(
        summary,
        vec![
            (CatalogueTaskId(100), A()),
            (CatalogueTaskId(100), B()),
            (CatalogueTaskId(101), A()),
            (CatalogueTaskId(101), B()),
        ]
    );
}

#[test]
fn random_assigns_each_task_to_some_eligible_worker() {
    let org = fixture();
    let tasks = three_tasks();
    let instances = org
        .assign_tasks_to_tags(&OWNER(), &vec![T1()], &tasks, &TaskAssignmentType::Random)
        .unwrap();
    assert_eq!(instances.len(), 3);
    for (instance, task) in instances.iter().zip(tasks) {
        assert_eq!(instance.catalogue_id, task);
        assert!(instance.assigned_to == A() || instance.assigned_to == B());
        assert_eq!(instance.status, TaskStatus::Pending);
    }
}

#[test]
fn to_account_requires_an_eligible_target() {
    let org = fixture();
    let denied = org.assign_tasks_to_tags(
        &OWNER(),
        &vec![T1(), T2()],
        &three_tasks(),
        &TaskAssignmentType::ToAccount { account: A() },
    );
    assert_eq!(denied, Err(OrganizationError::NoWorkers));

    let granted = org
        .assign_tasks_to_tags(
            &OWNER(),
            &vec![T1(), T2()],
            &three_tasks(),
            &TaskAssignmentType::ToAccount { account: B() },
        )
        .unwrap();
    assert_eq!(granted.len(), 3);
    assert!(granted.iter().all(|i| i.assigned_to == B()));
}

#[test]
fn direct_assignment_allows_self_and_superiors() {
    let org = fixture();
    let tasks = vec![CatalogueTaskId(100)];

    let unlinked = org.assign_tasks_to_account(AccountId(99), A(), &tasks);
    assert_eq!(unlinked, Err(OrganizationError::NotInOrg));

    let self_assigned = org.assign_tasks_to_account(A(), A(), &tasks).unwrap();
    assert_eq!(self_assigned.len(), 1);
    assert_eq!(self_assigned[0].assigned_to, A());
    assert_eq!(self_assigned[0].assigned_by, A());

    let by_owner = org.assign_tasks_to_account(OWNER(), C(), &tasks).unwrap();
    assert_eq!(by_owner[0].assigned_to, C());

    let by_worker = org.assign_tasks_to_account(A(), B(), &tasks);
    assert_eq!(by_worker, Err(OrganizationError::NotAuthorized));
}

#[test]
fn seed_ok_spots_an_unlinked_eligible_worker() {
    // B stands on the tag's roster but holds no membership record.
    let tags = vec![Tag::new(T1(), "first".to_string(), vec![OWNER()], vec![A(), B()])];
    let links = vec![
        AccountLink::new(OWNER(), AccountType::Owner, Vec::new()),
        AccountLink::new(A(), AccountType::Worker, Vec::new()),
    ];
    let org = Organization::new(OrganizationId(42), "acme".to_string(), tags, links).unwrap();
    assert!(!org.seed_ok(&vec![T1()], 3));

    let fully_linked = fixture();
    assert!(fully_linked.seed_ok(&vec![T1()], 3));
}

//! The task-distribution algorithm of the organization aggregate.
//!
//! Tags are resolved against the organization (unknown tag identifiers are
//! silently ignored), the requester's authority over every resolved tag is
//! checked, the eligible workers are the intersection of the resolved tags'
//! worker rosters, and the batch of catalogue tasks is distributed according
//! to the chosen [`TaskAssignmentType`].

use vstd::pervasive::{unreached, VecAdditionalExecFns};
use vstd::prelude::*;

use rand::seq::IndexedRandom;

use crate::ids::{AccountId, CatalogueTaskId, TagId, TaskId};
use crate::organization::{
    find_link, find_link_index, AccountLink, AccountType, Organization, OrganizationError, Tag, TaskAssignmentType,
};
use crate::task::{TaskInstance, TaskStatus};

verus! {

/// The organization's tags whose identifier is among `requested`, in the
/// organization's order. Requested identifiers that match no tag are
/// silently ignored.
pub open spec fn resolved_tags(tags: Seq<Tag>, requested: Seq<TagId>) -> Seq<Tag>
    decreases tags.len(),
{
    if tags.len() == 0 {
        Seq::empty()
    } else {
        let rest = resolved_tags(tags.drop_last(), requested);
        if requested.contains(tags.last().id) {
            rest.push(tags.last())
        } else {
            rest
        }
    }
}

/// `account` stands on the worker roster of every resolved tag.
pub open spec fn in_all_workers(rtags: Seq<Tag>, account: AccountId) -> bool {
    forall|i: int| 0 <= i < rtags.len() ==> rtags[i].workers@.contains(account)
}

/// `account` is an authorized editor of every resolved tag.
pub open spec fn editor_of_all(rtags: Seq<Tag>, account: AccountId) -> bool {
    forall|i: int| 0 <= i < rtags.len() ==> rtags[i].authorized_editors@.contains(account)
}

/// An owner may always assign; a worker or admin only as an editor of every
/// resolved tag.
pub open spec fn may_assign(link: AccountLink, rtags: Seq<Tag>) -> bool {
    link.account_type == AccountType::Owner || editor_of_all(rtags, link.account)
}

/// The members of `candidates` that stand on every resolved tag's worker
/// roster, in order.
pub open spec fn filter_in_all(candidates: Seq<AccountId>, rtags: Seq<Tag>) -> Seq<AccountId>
    decreases candidates.len(),
{
    if candidates.len() == 0 {
        Seq::empty()
    } else {
        let rest = filter_in_all(candidates.drop_last(), rtags);
        if in_all_workers(rtags, candidates.last()) {
            rest.push(candidates.last())
        } else {
            rest
        }
    }
}

/// The eligible workers: the intersection of the resolved tags' worker
/// rosters, in the order of the first resolved tag's roster. Empty when no
/// tag was resolved.
pub open spec fn eligible_workers(rtags: Seq<Tag>) -> Seq<AccountId> {
    if rtags.len() == 0 {
        Seq::empty()
    } else {
        filter_in_all(rtags[0].workers@, rtags)
    }
}

/// Index of the first minimal entry of `counts`.
pub open spec fn min_index(counts: Seq<int>) -> int
    decreases counts.len(),
{
    if counts.len() <= 1 {
        0
    } else {
        let rest = min_index(counts.drop_last());
        if counts.last() < counts[rest] {
            counts.len() - 1
        } else {
            rest
        }
    }
}

/// Index of the first maximal entry of `counts`.
pub open spec fn max_index(counts: Seq<int>) -> int
    decreases counts.len(),
{
    if counts.len() <= 1 {
        0
    } else {
        let rest = max_index(counts.drop_last());
        if counts.last() > counts[rest] {
            counts.len() - 1
        } else {
            rest
        }
    }
}

/// One greedy step: credit one task to the worker at `i`.
pub open spec fn bump(counts: Seq<int>, i: int) -> Seq<int> {
    counts.update(i, counts[i] + 1)
}

/// The running task counts after greedily distributing `k` tasks, always to
/// the first worker with the fewest.
pub open spec fn counts_after_lowest(base: Seq<int>, k: nat) -> Seq<int>
    decreases k,
{
    if k == 0 {
        base
    } else {
        let c = counts_after_lowest(base, (k - 1) as nat);
        bump(c, min_index(c))
    }
}

/// The running task counts after greedily distributing `k` tasks, always to
/// the first worker with the most.
pub open spec fn counts_after_highest(base: Seq<int>, k: nat) -> Seq<int>
    decreases k,
{
    if k == 0 {
        base
    } else {
        let c = counts_after_highest(base, (k - 1) as nat);
        bump(c, max_index(c))
    }
}

/// The worker index that receives the `i`th task of a lowest-count run.
pub open spec fn lowest_pick(base: Seq<int>, i: nat) -> int {
    min_index(counts_after_lowest(base, i))
}

/// The worker index that receives the `i`th task of a highest-count run.
pub open spec fn highest_pick(base: Seq<int>, i: nat) -> int {
    max_index(counts_after_highest(base, i))
}

/// Each worker's starting count: the number of task instances already
/// routed to it on its membership record.
pub open spec fn seed_counts(links: Seq<AccountLink>, workers: Seq<AccountId>) -> Seq<int> {
    Seq::new(
        workers.len(),
        |i: int|
            match find_link(links, workers[i]) {
                Some(link) => link.tasks@.len() as int,
                None => 0,
            },
    )
}

proof fn lemma_min_index_bounds(counts: Seq<int>)
    requires
        counts.len() > 0,
    ensures
        0 <= min_index(counts) < counts.len(),
        forall|j: int| 0 <= j < counts.len() ==> counts[min_index(counts)] <= #[trigger] counts[j],
    decreases counts.len(),
{
    if counts.len() > 1 {
        let dl = counts.drop_last();
        lemma_min_index_bounds(dl);
        let m = min_index(counts);
        assert forall|j: int| 0 <= j < counts.len() implies counts[m] <= #[trigger] counts[j] by {
            assert(dl[min_index(dl)] <= dl[0]);
            if m != counts.len() - 1 {
                assert(counts[m] == dl[min_index(dl)]);
            }
            if j < counts.len() - 1 {
                assert(dl[min_index(dl)] <= dl[j]);
                assert(dl[j] == counts[j]);
            }
        }
    }
}

proof fn lemma_max_index_bounds(counts: Seq<int>)
    requires
        counts.len() > 0,
    ensures
        0 <= max_index(counts) < counts.len(),
        forall|j: int| 0 <= j < counts.len() ==> counts[max_index(counts)] >= #[trigger] counts[j],
    decreases counts.len(),
{
    if counts.len() > 1 {
        let dl = counts.drop_last();
        lemma_max_index_bounds(dl);
        let m = max_index(counts);
        assert forall|j: int| 0 <= j < counts.len() implies counts[m] >= #[trigger] counts[j] by {
            assert(dl[max_index(dl)] >= dl[0]);
            if m != counts.len() - 1 {
                assert(counts[m] == dl[max_index(dl)]);
            }
            if j < counts.len() - 1 {
                assert(dl[max_index(dl)] >= dl[j]);
                assert(dl[j] == counts[j]);
            }
        }
    }
}

proof fn lemma_counts_after_lowest_frame(base: Seq<int>, k: nat)
    requires
        base.len() > 0,
    ensures
        counts_after_lowest(base, k).len() == base.len(),
        forall|q: int|
            0 <= q < base.len() ==> base[q] <= #[trigger] counts_after_lowest(base, k)[q] <= base[q]
                + k,
    decreases k,
{
    if k > 0 {
        lemma_counts_after_lowest_frame(base, (k - 1) as nat);
        lemma_min_index_bounds(counts_after_lowest(base, (k - 1) as nat));
    }
}

proof fn lemma_counts_after_highest_frame(base: Seq<int>, k: nat)
    requires
        base.len() > 0,
    ensures
        counts_after_highest(base, k).len() == base.len(),
        forall|q: int|
            0 <= q < base.len() ==> base[q] <= #[trigger] counts_after_highest(base, k)[q]
                <= base[q] + k,
    decreases k,
{
    if k > 0 {
        lemma_counts_after_highest_frame(base, (k - 1) as nat);
        lemma_max_index_bounds(counts_after_highest(base, (k - 1) as nat));
    }
}

/// Balanced-load law of the lowest-count distribution: starting from
/// all-equal counts, after any number of greedy steps no two workers'
/// running counts differ by more than one.
pub proof fn lemma_lowest_tasks_balanced(base: Seq<int>, k: nat)
    requires
        base.len() > 0,
        forall|i: int, j: int|
            0 <= i < base.len() && 0 <= j < base.len() ==> base[i] == base[j],
    ensures
        forall|i: int, j: int|
            0 <= i < base.len() && 0 <= j < base.len() ==> #[trigger] counts_after_lowest(base, k)[i]
                - #[trigger] counts_after_lowest(base, k)[j] <= 1,
    decreases k,
{
    lemma_counts_after_lowest_frame(base, k);
    if k > 0 {
        let c = counts_after_lowest(base, (k - 1) as nat);
        lemma_lowest_tasks_balanced(base, (k - 1) as nat);
        lemma_counts_after_lowest_frame(base, (k - 1) as nat);
        lemma_min_index_bounds(c);
        let m = min_index(c);
        let c2 = counts_after_lowest(base, k);
        assert(c2 == bump(c, m));
        assert forall|i: int, j: int|
            0 <= i < base.len() && 0 <= j < base.len() implies #[trigger] c2[i] - #[trigger] c2[j]
            <= 1 by {
            if i == m {
                assert(c[m] <= c[j]);
            } else if j == m {
                assert(c[i] - c[j] <= 1);
            } else {
                assert(c[i] - c[j] <= 1);
            }
        }
    }
}

/// A freshly minted, never-expiring `Pending` instance of `task` for
/// `worker`, assigned by `assigner`. The instance's own identifier is fresh
/// and therefore unconstrained.
pub open spec fn is_pending_instance(
    inst: TaskInstance,
    task: CatalogueTaskId,
    worker: AccountId,
    assigner: AccountId,
) -> bool {
    &&& inst.catalogue_id == task
    &&& inst.assigned_to == worker
    &&& inst.assigned_by == assigner
    &&& inst.expires is None
    &&& inst.status is Pending
}

/// The tags of `tags` standing at the positions `idxs`, in that order.
pub open spec fn tags_at(tags: Seq<Tag>, idxs: Seq<usize>) -> Seq<Tag> {
    Seq::new(idxs.len(), |j: int| tags[idxs[j] as int])
}

/// Relies on rand's `IndexedRandom::choose` (backed by the thread-local
/// generator of `rand::rng`): `None` exactly on an empty slice, otherwise a
/// uniformly drawn element of the slice. Which element comes back depends on
/// the generator's state, so only membership is stated.
#[verifier::external_body]
fn choose_account(workers: &Vec<AccountId>) -> (r: Option<AccountId>)
    ensures
        r is Some <==> workers@.len() > 0,
        r matches Some(account) ==> workers@.contains(account),
{
    workers.as_slice().choose(&mut rand::rng()).copied()
}

fn mk_instance(task: CatalogueTaskId, worker: AccountId, assigner: AccountId) -> (r: TaskInstance)
    ensures
        is_pending_instance(r, task, worker, assigner),
{
    match TaskInstance::new(TaskId::new(), worker, assigner, None, task, TaskStatus::Pending) {
        Ok(inst) => inst,
        Err(_) => unreached(),
    }
}

/// Positions of the organization's tags whose identifier was requested.
fn resolve_tag_indices(tags: &Vec<Tag>, requested: &Vec<TagId>) -> (r: Vec<usize>)
    ensures
        forall|j: int| 0 <= j < r@.len() ==> (#[trigger] r@[j]) < tags@.len(),
        tags_at(tags@, r@) == resolved_tags(tags@, requested@),
{
    let mut out: Vec<usize> = Vec::new();
    let mut i: usize = 0;
    while i < tags.len()
        invariant
            0 <= i <= tags@.len(),
            forall|j: int| 0 <= j < out@.len() ==> (#[trigger] out@[j]) < i,
            tags_at(tags@, out@) == resolved_tags(tags@.take(i as int), requested@),
        decreases tags@.len() - i,
    {
        let ghost prev = out@;
        if crate::organization::contains_tag_id(requested, tags[i].id) {
            out.push(i);
        }
        i = i + 1;
        proof {
            let t = tags@.take(i as int);
            assert(t.drop_last() =~= tags@.take(i as int - 1));
            assert(t.last() == tags@[i as int - 1]);
            if requested@.contains(tags@[i as int - 1].id) {
                assert(tags_at(tags@, out@) =~= tags_at(tags@, prev).push(tags@[i as int - 1]));
            } else {
                assert(out@ == prev);
            }
            assert(tags_at(tags@, out@) =~= resolved_tags(t, requested@));
        }
    }
    proof {
        assert(tags@.take(tags@.len() as int) =~= tags@);
    }
    out
}

/// Whether `account` is an authorized editor of every tag at `idxs`.
fn editor_of_all_exec(tags: &Vec<Tag>, idxs: &Vec<usize>, account: AccountId) -> (r: bool)
    requires
        forall|j: int| 0 <= j < idxs@.len() ==> (#[trigger] idxs@[j]) < tags@.len(),
    ensures
        r == editor_of_all(tags_at(tags@, idxs@), account),
{
    let ghost rtags = tags_at(tags@, idxs@);
    let mut j: usize = 0;
    while j < idxs.len()
        invariant
            0 <= j <= idxs@.len(),
            rtags == tags_at(tags@, idxs@),
            forall|q: int| 0 <= q < idxs@.len() ==> (#[trigger] idxs@[q]) < tags@.len(),
            forall|q: int| 0 <= q < j ==> (#[trigger] rtags[q]).authorized_editors@.contains(
                account,
            ),
        decreases idxs@.len() - j,
    {
        let ti = idxs[j];
        proof {
            assert(rtags[j as int] == tags@[idxs@[j as int] as int]);
        }
        if !crate::organization::contains_account(&tags[ti].authorized_editors, account) {
            assert(!rtags[j as int].authorized_editors@.contains(account));
            return false;
        }
        j = j + 1;
    }
    true
}

/// Whether `account` stands on the worker roster of every tag at `idxs`.
fn in_all_workers_exec(tags: &Vec<Tag>, idxs: &Vec<usize>, account: AccountId) -> (r: bool)
    requires
        forall|j: int| 0 <= j < idxs@.len() ==> (#[trigger] idxs@[j]) < tags@.len(),
    ensures
        r == in_all_workers(tags_at(tags@, idxs@), account),
{
    let ghost rtags = tags_at(tags@, idxs@);
    let mut j: usize = 0;
    while j < idxs.len()
        invariant
            0 <= j <= idxs@.len(),
            rtags == tags_at(tags@, idxs@),
            forall|q: int| 0 <= q < idxs@.len() ==> (#[trigger] idxs@[q]) < tags@.len(),
            forall|q: int| 0 <= q < j ==> (#[trigger] rtags[q]).workers@.contains(account),
        decreases idxs@.len() - j,
    {
        let ti = idxs[j];
        proof {
            assert(rtags[j as int] == tags@[idxs@[j as int] as int]);
        }
        if !crate::organization::contains_account(&tags[ti].workers, account) {
            assert(!rtags[j as int].workers@.contains(account));
            return false;
        }
        j = j + 1;
    }
    true
}

/// The eligible workers of the tags at `idxs`: the intersection of their
/// worker rosters, in the order of the first one's roster.
fn compute_eligible(tags: &Vec<Tag>, idxs: &Vec<usize>) -> (r: Vec<AccountId>)
    requires
        forall|j: int| 0 <= j < idxs@.len() ==> (#[trigger] idxs@[j]) < tags@.len(),
    ensures
        r@ == eligible_workers(tags_at(tags@, idxs@)),
{
    let ghost rtags = tags_at(tags@, idxs@);
    if idxs.len() == 0 {
        return Vec::new();
    }
    let first = idxs[0];
    proof {
        assert(rtags[0] == tags@[idxs@[0] as int]);
    }
    let mut out: Vec<AccountId> = Vec::new();
    let mut i: usize = 0;
    while i < tags[first].workers.len()
        invariant
            forall|j: int| 0 <= j < idxs@.len() ==> (#[trigger] idxs@[j]) < tags@.len(),
            idxs@.len() > 0,
            first == idxs@[0],
            rtags == tags_at(tags@, idxs@),
            rtags[0] == tags@[first as int],
            0 <= i <= tags@[first as int].workers@.len(),
            out@ == filter_in_all(tags@[first as int].workers@.take(i as int), rtags),
        decreases tags@[first as int].workers@.len() - i,
    {
        let ghost prev = out@;
        let candidate = tags[first].workers[i];
        if in_all_workers_exec(tags, idxs, candidate) {
            out.push(candidate);
        }
        i = i + 1;
        proof {
            let ws = tags@[first as int].workers@;
            let t = ws.take(i as int);
            assert(t.drop_last() =~= ws.take(i as int - 1));
            assert(t.last() == ws[i as int - 1]);
            assert(out@ == filter_in_all(t, rtags));
        }
    }
    proof {
        let ws = tags@[first as int].workers@;
        assert(ws.take(ws.len() as int) =~= ws);
    }
    out
}

/// Every task to `worker`, in order.
fn assign_all_to(tasks: &Vec<CatalogueTaskId>, worker: AccountId, assigner: AccountId) -> (out:
    Vec<TaskInstance>)
    ensures
        out@.len() == tasks@.len(),
        forall|i: int|
            0 <= i < tasks@.len() ==> is_pending_instance(
                #[trigger] out@[i],
                tasks@[i],
                worker,
                assigner,
            ),
{
    let mut out: Vec<TaskInstance> = Vec::new();
    let mut t: usize = 0;
    while t < tasks.len()
        invariant
            0 <= t <= tasks@.len(),
            out@.len() == t,
            forall|i: int|
                0 <= i < t ==> is_pending_instance(#[trigger] out@[i], tasks@[i], worker, assigner),
        decreases tasks@.len() - t,
    {
        out.push(mk_instance(tasks[t], worker, assigner));
        t = t + 1;
    }
    out
}

/// Each task to an independently drawn eligible worker.
fn distribute_random(
    workers: &Vec<AccountId>,
    tasks: &Vec<CatalogueTaskId>,
    assigner: AccountId,
) -> (out: Vec<TaskInstance>)
    requires
        workers@.len() > 0,
    ensures
        out@.len() == tasks@.len(),
        forall|i: int|
            0 <= i < tasks@.len() ==> (#[trigger] out@[i]).catalogue_id == tasks@[i]
                && workers@.contains(out@[i].assigned_to) && out@[i].assigned_by == assigner
                && out@[i].expires is None && out@[i].status is Pending,
{
    let mut out: Vec<TaskInstance> = Vec::new();
    let mut t: usize = 0;
    while t < tasks.len()
        invariant
            workers@.len() > 0,
            0 <= t <= tasks@.len(),
            out@.len() == t,
            forall|i: int|
                0 <= i < t ==> (#[trigger] out@[i]).catalogue_id == tasks@[i]
                    && workers@.contains(out@[i].assigned_to) && out@[i].assigned_by == assigner
                    && out@[i].expires is None && out@[i].status is Pending,
        decreases tasks@.len() - t,
    {
        let worker = choose_account(workers).unwrap();
        out.push(mk_instance(tasks[t], worker, assigner));
        t = t + 1;
    }
    out
}

/// The flattened position of task `i`'s copy for worker `j` when every one
/// of `w` workers receives every task.
pub open spec fn copy_index(w: int, i: int, j: int) -> int {
    i * w + j
}

/// Every worker receives every task: rows per task, in worker order.
fn distribute_copy(
    workers: &Vec<AccountId>,
    tasks: &Vec<CatalogueTaskId>,
    assigner: AccountId,
) -> (out: Vec<TaskInstance>)
    ensures
        out@.len() == tasks@.len() * workers@.len(),
        forall|i: int, j: int|
            0 <= i < tasks@.len() && 0 <= j < workers@.len() ==> is_pending_instance(
                #[trigger] out@[copy_index(workers@.len() as int, i, j)],
                tasks@[i],
                workers@[j],
                assigner,
            ),
        forall|p: int|
            0 <= p < out@.len() ==> (#[trigger] out@[p]).assigned_by == assigner
                && out@[p].status is Pending && out@[p].expires is None,
{
    let ghost w = workers@.len() as int;
    let mut out: Vec<TaskInstance> = Vec::new();
    let mut t: usize = 0;
    while t < tasks.len()
        invariant
            w == workers@.len() as int,
            0 <= t <= tasks@.len(),
            out@.len() == t * w,
            forall|i: int, j: int|
                0 <= i < t && 0 <= j < w ==> is_pending_instance(
                    #[trigger] out@[copy_index(w, i, j)],
                    tasks@[i],
                    workers@[j],
                    assigner,
                ),
            forall|p: int|
                0 <= p < out@.len() ==> (#[trigger] out@[p]).assigned_by == assigner
                    && out@[p].status is Pending && out@[p].expires is None,
        decreases tasks@.len() - t,
    {
        let mut j: usize = 0;
        while j < workers.len()
            invariant
                w == workers@.len() as int,
                0 <= t < tasks@.len(),
                0 <= j <= w,
                out@.len() == t * w + j,
                forall|p: int, q: int|
                    0 <= p < t && 0 <= q < w ==> is_pending_instance(
                        #[trigger] out@[copy_index(w, p, q)],
                        tasks@[p],
                        workers@[q],
                        assigner,
                    ),
                forall|q: int|
                    0 <= q < j ==> is_pending_instance(
                        #[trigger] out@[copy_index(w, t as int, q)],
                        tasks@[t as int],
                        workers@[q],
                        assigner,
                    ),
                forall|p: int|
                    0 <= p < out@.len() ==> (#[trigger] out@[p]).assigned_by == assigner
                        && out@[p].status is Pending && out@[p].expires is None,
            decreases w - j,
        {
            proof {
                assert forall|p: int, q: int| 0 <= p < t && 0 <= q < w implies copy_index(w, p, q)
                    < t * w by {
                    assert(p * w + q < (p + 1) * w <= t * w) by (nonlinear_arith)
                        requires
                            0 <= p < t,
                            0 <= q < w,
                    ;
                }
            }
            out.push(mk_instance(tasks[t], workers[j], assigner));
            j = j + 1;
        }
        t = t + 1;
        proof {
            assert(t * w == (t - 1) * w + w) by (nonlinear_arith);
            assert forall|p: int, q: int| 0 <= p < t && 0 <= q < w implies is_pending_instance(
                #[trigger] out@[copy_index(w, p, q)],
                tasks@[p],
                workers@[q],
                assigner,
            ) by {
                if p < t - 1 {
                    assert(is_pending_instance(
                        out@[copy_index(w, p, q)],
                        tasks@[p],
                        workers@[q],
                        assigner,
                    ));
                } else {
                    assert(is_pending_instance(
                        out@[copy_index(w, t - 1, q)],
                        tasks@[t - 1],
                        workers@[q],
                        assigner,
                    ));
                }
            }
        }
    }
    proof {
        assert(out@.len() == tasks@.len() * w);
    }
    out
}

/// Each task, in order, to the first worker with the fewest running tasks;
/// the chosen worker's running count is credited before the next task.
fn distribute_lowest(
    links: &Vec<AccountLink>,
    workers: &Vec<AccountId>,
    tasks: &Vec<CatalogueTaskId>,
    assigner: AccountId,
) -> (out: Vec<TaskInstance>)
    requires
        workers@.len() > 0,
        forall|q: int|
            0 <= q < workers@.len() ==> (#[trigger] find_link(links@, workers@[q]) matches Some(
                link,
            ) && link.tasks@.len() + tasks@.len() <= usize::MAX),
    ensures
        out@.len() == tasks@.len(),
        forall|i: int|
            0 <= i < tasks@.len() ==> 0 <= #[trigger] lowest_pick(
                seed_counts(links@, workers@),
                i as nat,
            ) < workers@.len(),
        forall|i: int|
            0 <= i < tasks@.len() ==> is_pending_instance(
                #[trigger] out@[i],
                tasks@[i],
                workers@[lowest_pick(seed_counts(links@, workers@), i as nat)],
                assigner,
            ),
{
    let ghost base = seed_counts(links@, workers@);
    let mut counts: Vec<usize> = Vec::new();
    let mut q: usize = 0;
    while q < workers.len()
        invariant
            base == seed_counts(links@, workers@),
            forall|p: int|
                0 <= p < workers@.len() ==> (#[trigger] find_link(links@, workers@[p]) matches Some(
                    link,
                ) && link.tasks@.len() + tasks@.len() <= usize::MAX),
            0 <= q <= workers@.len(),
            counts@.len() == q,
            forall|p: int| 0 <= p < q ==> (#[trigger] counts@[p]) as int == base[p],
        decreases workers@.len() - q,
    {
        let li = match crate::organization::find_link_index(links, workers[q]) {
            Some(li) => li,
            None => unreached(),
        };
        counts.push(links[li].tasks.len());
        q = q + 1;
    }
    let mut out: Vec<TaskInstance> = Vec::new();
    let mut t: usize = 0;
    while t < tasks.len()
        invariant
            base == seed_counts(links@, workers@),
            workers@.len() > 0,
            forall|p: int|
                0 <= p < workers@.len() ==> (#[trigger] find_link(links@, workers@[p]) matches Some(
                    link,
                ) && link.tasks@.len() + tasks@.len() <= usize::MAX),
            0 <= t <= tasks@.len(),
            counts@.len() == workers@.len(),
            counts@.map_values(|c: usize| c as int) == counts_after_lowest(base, t as nat),
            out@.len() == t,
            forall|i: int|
                0 <= i < t ==> 0 <= #[trigger] lowest_pick(base, i as nat) < workers@.len(),
            forall|i: int|
                0 <= i < t ==> is_pending_instance(
                    #[trigger] out@[i],
                    tasks@[i],
                    workers@[lowest_pick(base, i as nat)],
                    assigner,
                ),
        decreases tasks@.len() - t,
    {
        let ghost cs = counts@.map_values(|c: usize| c as int);
        let mut best: usize = 0;
        let mut j: usize = 1;
        while j < counts.len()
            invariant
                cs == counts@.map_values(|c: usize| c as int),
                counts@.len() > 0,
                1 <= j <= counts@.len(),
                0 <= best < j,
                best as int == min_index(cs.take(j as int)),
            decreases counts@.len() - j,
        {
            let ghost prev = j as int;
            if counts[j] < counts[best] {
                best = j;
            }
            j = j + 1;
            proof {
                let t1 = cs.take(j as int);
                assert(t1.drop_last() =~= cs.take(prev));
                assert(t1.last() == cs[prev]);
            }
        }
        proof {
            assert(cs.take(cs.len() as int) =~= cs);
            assert(best as int == min_index(cs));
            lemma_min_index_bounds(cs);
            lemma_counts_after_lowest_frame(base, t as nat);
            assert(base[best as int] + tasks@.len() <= usize::MAX);
        }
        let inst = mk_instance(tasks[t], workers[best], assigner);
        let ghost old_out = out@;
        out.push(inst);
        let cur = counts[best];
        counts.set(best, cur + 1);
        t = t + 1;
        proof {
            assert(counts@.map_values(|c: usize| c as int) =~= bump(cs, best as int));
            assert(counts_after_lowest(base, t as nat) == bump(
                counts_after_lowest(base, (t - 1) as nat),
                min_index(counts_after_lowest(base, (t - 1) as nat)),
            ));
            assert forall|i: int| 0 <= i < t implies 0 <= #[trigger] lowest_pick(
                base,
                i as nat,
            ) < workers@.len() && is_pending_instance(
                out@[i],
                tasks@[i],
                workers@[lowest_pick(base, i as nat)],
                assigner,
            ) by {
                if i == t - 1 {
                    assert(cs == counts_after_lowest(base, (t - 1) as nat));
                    assert(lowest_pick(base, i as nat) == min_index(cs));
                    assert(out@[i] == inst);
                } else {
                    assert(out@[i] == old_out[i]);
                }
            }
        }
    }
    out
}

/// Each task, in order, to the first worker with the most running tasks;
/// the chosen worker's running count is credited before the next task.
fn distribute_highest(
    links: &Vec<AccountLink>,
    workers: &Vec<AccountId>,
    tasks: &Vec<CatalogueTaskId>,
    assigner: AccountId,
) -> (out: Vec<TaskInstance>)
    requires
        workers@.len() > 0,
        forall|q: int|
            0 <= q < workers@.len() ==> (#[trigger] find_link(links@, workers@[q]) matches Some(
                link,
            ) && link.tasks@.len() + tasks@.len() <= usize::MAX),
    ensures
        out@.len() == tasks@.len(),
        forall|i: int|
            0 <= i < tasks@.len() ==> 0 <= #[trigger] highest_pick(
                seed_counts(links@, workers@),
                i as nat,
            ) < workers@.len(),
        forall|i: int|
            0 <= i < tasks@.len() ==> is_pending_instance(
                #[trigger] out@[i],
                tasks@[i],
                workers@[highest_pick(seed_counts(links@, workers@), i as nat)],
                assigner,
            ),
{
    let ghost base = seed_counts(links@, workers@);
    let mut counts: Vec<usize> = Vec::new();
    let mut q: usize = 0;
    while q < workers.len()
        invariant
            base == seed_counts(links@, workers@),
            forall|p: int|
                0 <= p < workers@.len() ==> (#[trigger] find_link(links@, workers@[p]) matches Some(
                    link,
                ) && link.tasks@.len() + tasks@.len() <= usize::MAX),
            0 <= q <= workers@.len(),
            counts@.len() == q,
            forall|p: int| 0 <= p < q ==> (#[trigger] counts@[p]) as int == base[p],
        decreases workers@.len() - q,
    {
        let li = match crate::organization::find_link_index(links, workers[q]) {
            Some(li) => li,
            None => unreached(),
        };
        counts.push(links[li].tasks.len());
        q = q + 1;
    }
    let mut out: Vec<TaskInstance> = Vec::new();
    let mut t: usize = 0;
    while t < tasks.len()
        invariant
            base == seed_counts(links@, workers@),
            workers@.len() > 0,
            forall|p: int|
                0 <= p < workers@.len() ==> (#[trigger] find_link(links@, workers@[p]) matches Some(
                    link,
                ) && link.tasks@.len() + tasks@.len() <= usize::MAX),
            0 <= t <= tasks@.len(),
            counts@.len() == workers@.len(),
            counts@.map_values(|c: usize| c as int) == counts_after_highest(base, t as nat),
            out@.len() == t,
            forall|i: int|
                0 <= i < t ==> 0 <= #[trigger] highest_pick(base, i as nat) < workers@.len(),
            forall|i: int|
                0 <= i < t ==> is_pending_instance(
                    #[trigger] out@[i],
                    tasks@[i],
                    workers@[highest_pick(base, i as nat)],
                    assigner,
                ),
        decreases tasks@.len() - t,
    {
        let ghost cs = counts@.map_values(|c: usize| c as int);
        let mut best: usize = 0;
        let mut j: usize = 1;
        while j < counts.len()
            invariant
                cs == counts@.map_values(|c: usize| c as int),
                counts@.len() > 0,
                1 <= j <= counts@.len(),
                0 <= best < j,
                best as int == max_index(cs.take(j as int)),
            decreases counts@.len() - j,
        {
            let ghost prev = j as int;
            if counts[j] > counts[best] {
                best = j;
            }
            j = j + 1;
            proof {
                let t1 = cs.take(j as int);
                assert(t1.drop_last() =~= cs.take(prev));
                assert(t1.last() == cs[prev]);
            }
        }
        proof {
            assert(cs.take(cs.len() as int) =~= cs);
            assert(best as int == max_index(cs));
            lemma_max_index_bounds(cs);
            lemma_counts_after_highest_frame(base, t as nat);
            assert(base[best as int] + tasks@.len() <= usize::MAX);
        }
        let inst = mk_instance(tasks[t], workers[best], assigner);
        let ghost old_out = out@;
        out.push(inst);
        let cur = counts[best];
        counts.set(best, cur + 1);
        t = t + 1;
        proof {
            assert(counts@.map_values(|c: usize| c as int) =~= bump(cs, best as int));
            assert(counts_after_highest(base, t as nat) == bump(
                counts_after_highest(base, (t - 1) as nat),
                max_index(counts_after_highest(base, (t - 1) as nat)),
            ));
            assert forall|i: int| 0 <= i < t implies 0 <= #[trigger] highest_pick(
                base,
                i as nat,
            ) < workers@.len() && is_pending_instance(
                out@[i],
                tasks@[i],
                workers@[highest_pick(base, i as nat)],
                assigner,
            ) by {
                if i == t - 1 {
                    assert(cs == counts_after_highest(base, (t - 1) as nat));
                    assert(highest_pick(base, i as nat) == max_index(cs));
                    assert(out@[i] == inst);
                } else {
                    assert(out@[i] == old_out[i]);
                }
            }
        }
    }
    out
}

impl Organization {
    /// The organization's tags selected by `requested`.
    pub open spec fn spec_resolved(self, requested: Seq<TagId>) -> Seq<Tag> {
        resolved_tags(self.tags@, requested)
    }

    /// The eligible workers for `requested`: the intersection of the
    /// resolved tags' worker rosters.
    pub open spec fn spec_eligible(self, requested: Seq<TagId>) -> Seq<AccountId> {
        eligible_workers(self.spec_resolved(requested))
    }

    /// The requester is linked and has authority over every resolved tag.
    pub open spec fn spec_assign_auth_ok(self, req: AccountId, requested: Seq<TagId>) -> bool {
        find_link(self.linked_accounts@, req) matches Some(link) && may_assign(
            link,
            self.spec_resolved(requested),
        )
    }

    /// The requester is linked but lacks authority over a resolved tag.
    pub open spec fn spec_assign_not_authorized(self, req: AccountId, requested: Seq<TagId>) -> bool {
        find_link(self.linked_accounts@, req) matches Some(link) && !may_assign(
            link,
            self.spec_resolved(requested),
        )
    }

    /// Exactly the inputs on which `assign_tasks_to_tags` succeeds: the
    /// requester has authority, some worker is eligible, and a named target
    /// account is itself eligible.
    pub open spec fn spec_assign_ok(
        self,
        req: AccountId,
        requested: Seq<TagId>,
        atype: TaskAssignmentType,
    ) -> bool {
        &&& self.spec_assign_auth_ok(req, requested)
        &&& self.spec_eligible(requested).len() > 0
        &&& match atype {
            TaskAssignmentType::ToAccount { account } => self.spec_eligible(requested).contains(
                account,
            ),
            _ => true,
        }
    }

    /// Exactly the inputs on which `assign_tasks_to_tags` fails with
    /// `NoWorkers`: authority holds, but no worker is eligible — so in
    /// particular whenever no tag resolves — or the named target account is
    /// not eligible.
    pub open spec fn spec_no_workers(
        self,
        req: AccountId,
        requested: Seq<TagId>,
        atype: TaskAssignmentType,
    ) -> bool {
        &&& self.spec_assign_auth_ok(req, requested)
        &&& (self.spec_eligible(requested).len() == 0 || match atype {
            TaskAssignmentType::ToAccount { account } => !self.spec_eligible(requested).contains(
                account,
            ),
            _ => false,
        })
    }

    /// Machine-limit precondition of the balanced policies: every eligible
    /// worker holds a membership record whose task count can absorb the
    /// whole batch.
    pub open spec fn spec_seed_ok(self, requested: Seq<TagId>, tasks_n: nat) -> bool {
        forall|q: int|
            0 <= q < self.spec_eligible(requested).len() ==> (#[trigger] find_link(
                self.linked_accounts@,
                self.spec_eligible(requested)[q],
            ) matches Some(link) && link.tasks@.len() + tasks_n <= usize::MAX)
    }

    /// Runtime test of the balanced policies' precondition: whether every
    /// eligible worker for `tags` holds a membership record, with a task
    /// count that can absorb a batch of `batch` tasks. Callers of
    /// `assign_tasks_to_tags` with `LowestTasks` or `HighestTasks` owe that
    /// condition; this check establishes it.
    pub fn seed_ok(&self, tags: &Vec<TagId>, batch: usize) -> (r: bool)
        ensures
            r == self.spec_seed_ok(tags@, batch as nat),
    {
        let idxs = resolve_tag_indices(&self.tags, tags);
        let workers = compute_eligible(&self.tags, &idxs);
        let ghost el = self.spec_eligible(tags@);
        let mut q: usize = 0;
        while q < workers.len()
            invariant
                el == self.spec_eligible(tags@),
                workers@ == el,
                0 <= q <= workers@.len(),
                forall|p: int|
                    0 <= p < q ==> (#[trigger] find_link(
                        self.linked_accounts@,
                        el[p],
                    ) matches Some(link) && link.tasks@.len() + batch <= usize::MAX),
            decreases workers@.len() - q,
        {
            let link_index = match find_link_index(&self.linked_accounts, workers[q]) {
                Some(i) => i,
                None => {
                    return false;
                },
            };
            if self.linked_accounts[link_index].tasks.len() > usize::MAX - batch {
                return false;
            }
            q = q + 1;
        }
        true
    }

    /// Distribute the catalogue tasks over the workers shared by all the
    /// requested tags, according to `assignment_type`.
    pub fn assign_tasks_to_tags(
        &self,
        requesting_account: &AccountId,
        tags: &Vec<TagId>,
        tasks: &Vec<CatalogueTaskId>,
        assignment_type: &TaskAssignmentType,
    ) -> (r: Result<Vec<TaskInstance>, OrganizationError>)
        requires
            (*assignment_type == TaskAssignmentType::LowestTasks || *assignment_type
                == TaskAssignmentType::HighestTasks) && self.spec_assign_auth_ok(
                *requesting_account,
                tags@,
            ) ==> self.spec_seed_ok(tags@, tasks@.len()),
        ensures
            r is Ok <==> self.spec_assign_ok(*requesting_account, tags@, *assignment_type),
            r == Err::<Vec<TaskInstance>, OrganizationError>(OrganizationError::NotInOrg)
                <==> find_link(self.linked_accounts@, *requesting_account) is None,
            r == Err::<Vec<TaskInstance>, OrganizationError>(OrganizationError::NotAuthorized)
                <==> self.spec_assign_not_authorized(*requesting_account, tags@),
            r == Err::<Vec<TaskInstance>, OrganizationError>(OrganizationError::NoWorkers)
                <==> self.spec_no_workers(*requesting_account, tags@, *assignment_type),
            r matches Ok(out) ==> forall|i: int|
                0 <= i < out@.len() ==> (#[trigger] out@[i]).assigned_by == *requesting_account
                    && out@[i].status is Pending && out@[i].expires is None,
            r matches Ok(out) ==> (*assignment_type == TaskAssignmentType::Random ==> out@.len()
                == tasks@.len() && forall|i: int|
                0 <= i < tasks@.len() ==> (#[trigger] out@[i]).catalogue_id == tasks@[i]
                    && self.spec_eligible(tags@).contains(out@[i].assigned_to)),
            r matches Ok(out) ==> (*assignment_type == TaskAssignmentType::Copy ==> out@.len()
                == tasks@.len() * self.spec_eligible(tags@).len() && forall|i: int, j: int|
                0 <= i < tasks@.len() && 0 <= j < self.spec_eligible(tags@).len()
                    ==> is_pending_instance(
                    #[trigger] out@[copy_index(self.spec_eligible(tags@).len() as int, i, j)],
                    tasks@[i],
                    self.spec_eligible(tags@)[j],
                    *requesting_account,
                )),
            r matches Ok(out) ==> (*assignment_type == TaskAssignmentType::LowestTasks
                ==> out@.len() == tasks@.len() && (forall|i: int|
                0 <= i < tasks@.len() ==> 0 <= #[trigger] lowest_pick(
                    seed_counts(self.linked_accounts@, self.spec_eligible(tags@)),
                    i as nat,
                ) < self.spec_eligible(tags@).len()) && (forall|i: int|
                0 <= i < tasks@.len() ==> is_pending_instance(
                    #[trigger] out@[i],
                    tasks@[i],
                    self.spec_eligible(tags@)[lowest_pick(
                        seed_counts(self.linked_accounts@, self.spec_eligible(tags@)),
                        i as nat,
                    )],
                    *requesting_account,
                ))),
            r matches Ok(out) ==> (*assignment_type == TaskAssignmentType::HighestTasks
                ==> out@.len() == tasks@.len() && (forall|i: int|
                0 <= i < tasks@.len() ==> 0 <= #[trigger] highest_pick(
                    seed_counts(self.linked_accounts@, self.spec_eligible(tags@)),
                    i as nat,
                ) < self.spec_eligible(tags@).len()) && (forall|i: int|
                0 <= i < tasks@.len() ==> is_pending_instance(
                    #[trigger] out@[i],
                    tasks@[i],
                    self.spec_eligible(tags@)[highest_pick(
                        seed_counts(self.linked_accounts@, self.spec_eligible(tags@)),
                        i as nat,
                    )],
                    *requesting_account,
                ))),
            r matches Ok(out) ==> (*assignment_type matches TaskAssignmentType::ToAccount {
                account,
            } ==> out@.len() == tasks@.len() && forall|i: int|
                0 <= i < tasks@.len() ==> is_pending_instance(
                    #[trigger] out@[i],
                    tasks@[i],
                    account,
                    *requesting_account,
                )),
    {
        let link_index = match find_link_index(&self.linked_accounts, *requesting_account) {
            Some(i) => i,
            None => {
                return Err(OrganizationError::NotInOrg);
            },
        };
        let idxs = resolve_tag_indices(&self.tags, tags);
        let ghost rtags = self.spec_resolved(tags@);
        let authorized = match self.linked_accounts[link_index].account_type {
            AccountType::Owner => true,
            AccountType::Worker | AccountType::Admin => editor_of_all_exec(
                &self.tags,
                &idxs,
                *requesting_account,
            ),
        };
        if !authorized {
            return Err(OrganizationError::NotAuthorized);
        }
        let workers = compute_eligible(&self.tags, &idxs);
        if workers.len() == 0 {
            return Err(OrganizationError::NoWorkers);
        }
        match assignment_type {
            TaskAssignmentType::Random => Ok(
                distribute_random(&workers, tasks, *requesting_account),
            ),
            TaskAssignmentType::Copy => Ok(distribute_copy(&workers, tasks, *requesting_account)),
            TaskAssignmentType::LowestTasks => Ok(
                distribute_lowest(&self.linked_accounts, &workers, tasks, *requesting_account),
            ),
            TaskAssignmentType::HighestTasks => Ok(
                distribute_highest(&self.linked_accounts, &workers, tasks, *requesting_account),
            ),
            TaskAssignmentType::ToAccount { account } => {
                if crate::organization::contains_account(&workers, *account) {
                    Ok(assign_all_to(tasks, *account, *requesting_account))
                } else {
                    Err(OrganizationError::NoWorkers)
                }
            },
        }
    }

    /// Direct assignment: every task to `worker`. The requester must be
    /// linked, and must either self-assign or hold a non-`Worker` link.
    pub fn assign_tasks_to_account(
        &self,
        requesting_account: AccountId,
        worker: AccountId,
        tasks: &Vec<CatalogueTaskId>,
    ) -> (r: Result<Vec<TaskInstance>, OrganizationError>)
        ensures
            find_link(self.linked_accounts@, requesting_account) is None <==> r == Err::<
                Vec<TaskInstance>,
                OrganizationError,
            >(OrganizationError::NotInOrg),
            find_link(self.linked_accounts@, requesting_account) matches Some(link) ==> (if worker
                == requesting_account || link.account_type != AccountType::Worker {
                r matches Ok(out) && out@.len() == tasks@.len() && forall|i: int|
                    0 <= i < tasks@.len() ==> is_pending_instance(
                        #[trigger] out@[i],
                        tasks@[i],
                        worker,
                        requesting_account,
                    )
            } else {
                r == Err::<Vec<TaskInstance>, OrganizationError>(OrganizationError::NotAuthorized)
            }),
    {
        let link_index = match find_link_index(&self.linked_accounts, requesting_account) {
            Some(i) => i,
            None => {
                return Err(OrganizationError::NotInOrg);
            },
        };
        if worker == requesting_account || !matches!(
            self.linked_accounts[link_index].account_type,
            AccountType::Worker,
        ) {
            Ok(assign_all_to(tasks, worker, requesting_account))
        } else {
            Err(OrganizationError::NotAuthorized)
        }
    }
}

/// An assignment request whose eligible-worker intersection is empty — in
/// particular one that resolves no tag at all — always fails with
/// `NoWorkers`, however the requester is authorized.
pub proof fn lemma_empty_intersection_no_workers(
    org: Organization,
    req: AccountId,
    requested: Seq<TagId>,
    atype: TaskAssignmentType,
)
    requires
        org.spec_assign_auth_ok(req, requested),
        org.spec_eligible(requested).len() == 0,
    ensures
        org.spec_no_workers(req, requested, atype),
        !org.spec_assign_ok(req, requested, atype),
{
}

} // verus!

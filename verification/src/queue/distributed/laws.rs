//! What holds of the store whatever the workers ask of it: of one operation,
//! and of any number of them in any order.
use super::state::{
    deadline_after, leases_item, lemma_count_within_len, lemma_first_index, lemma_last_index,
    lost_at, not_among, LeaseView, OperationView, StoreState,
};
use super::{STATUS_FINISHED, STATUS_READY, STATUS_SETUP};
use vstd::prelude::*;

verus! {

/// One request to the store: a worker and what it asks.
pub struct Step {
    pub worker: Seq<char>,
    pub operation: OperationView,
}

/// The state after `steps`, one after the other.
pub open spec fn run(s: StoreState, steps: Seq<Step>) -> StoreState
    decreases steps.len(),
{
    if steps.len() == 0 {
        s
    } else {
        run(s, steps.drop_last()).apply(steps.last().worker, steps.last().operation).0
    }
}

/// Whether some reservation among `leases` is of `item`.
pub open spec fn some_lease_of(leases: Seq<LeaseView>, item: Seq<char>) -> bool {
    exists|j: int| 0 <= j < leases.len() && (#[trigger] leases[j]).item == item
}

/// An item is reserved where some reservation is of it, and the reservation
/// that `lease_index` finds is of it.
pub proof fn lemma_running(s: StoreState, item: Seq<char>)
    ensures
        s.is_running(item) <==> some_lease_of(s.leases, item),
        s.is_running(item) ==> 0 <= s.lease_index(item) < s.leases.len() && s.leases[s.lease_index(
            item,
        )].item == item,
        !s.is_running(item) ==> s.lease_index(item) == -1,
        s.wf() ==> forall|j: int|
            0 <= j < s.leases.len() && (#[trigger] s.leases[j]).item == item ==> j
                == s.lease_index(item),
{
    lemma_first_index(s.leases, leases_item(item));
    let at = s.lease_index(item);
    if at >= 0 {
        assert(s.leases[at].item == item);
    }
    if s.wf() {
        assert forall|j: int| 0 <= j < s.leases.len() && (#[trigger] s.leases[j]).item
            == item implies j == at by {
            assert(leases_item(item)(s.leases[j]));
            if j != at {
                assert(s.leases[at].item != s.leases[j].item);
            }
        }
    }
    if some_lease_of(s.leases, item) {
        let j = choose|j: int| 0 <= j < s.leases.len() && (#[trigger] s.leases[j]).item == item;
        assert(leases_item(item)(s.leases[j]));
    }
}

/// A reservation that is made or renewed: the item is reserved by the worker
/// until the deadline, and nothing else changes.
pub proof fn lemma_with_lease(s: StoreState, item: Seq<char>, worker: Seq<char>, deadline: u64)
    requires
        s.wf(),
    ensures
        s.with_lease(item, worker, deadline).wf(),
        s.with_lease(item, worker, deadline).owner(item) == Some(worker),
        s.with_lease(item, worker, deadline).deadline(item) == Some(deadline),
        s.with_lease(item, worker, deadline).leases.len() == s.leases.len() + (if s.is_running(
            item,
        ) {
            0int
        } else {
            1int
        }),
        forall|other: Seq<char>|
            other != item ==> s.with_lease(item, worker, deadline).owner(other) == s.owner(other)
                && s.with_lease(item, worker, deadline).deadline(other) == s.deadline(other),
        forall|other: Seq<char>|
            s.with_lease(item, worker, deadline).is_running(other) <==> s.is_running(other)
                || other == item,
{
    let after = s.with_lease(item, worker, deadline);
    let at = s.lease_index(item);
    lemma_running(s, item);
    assert(after.wf()) by {
        assert forall|i: int, j: int| 0 <= i < j < after.leases.len() implies (
        #[trigger] after.leases[i]).item != (#[trigger] after.leases[j]).item by {
            if at >= 0 {
                assert(after.leases[i].item == s.leases[i].item);
                assert(after.leases[j].item == s.leases[j].item);
            } else {
                if j < s.leases.len() {
                    assert(after.leases[i] == s.leases[i]);
                    assert(after.leases[j] == s.leases[j]);
                } else {
                    assert(after.leases[i] == s.leases[i]);
                    assert(!some_lease_of(s.leases, item));
                }
            }
        }
    }
    let place = if at >= 0 {
        at
    } else {
        s.leases.len() as int
    };
    assert(after.leases[place].item == item);
    assert(some_lease_of(after.leases, item));
    lemma_running(after, item);
    assert forall|other: Seq<char>|
        (after.is_running(other) <==> s.is_running(other) || other == item) && (other != item
            ==> after.owner(other) == s.owner(other) && after.deadline(other) == s.deadline(
            other,
        )) by {
        lemma_running(s, other);
        lemma_running(after, other);
        if other != item {
            if s.is_running(other) {
                let k = s.lease_index(other);
                assert(after.leases[k] == s.leases[k]);
                assert(some_lease_of(after.leases, other));
            }
            if after.is_running(other) {
                let k = after.lease_index(other);
                assert(k != place);
                assert(after.leases[k] == s.leases[k]);
                assert(some_lease_of(s.leases, other));
            }
        }
    }
}

/// A reservation that is ended: the item is reserved no longer, and nothing
/// else changes.
pub proof fn lemma_without_lease(s: StoreState, item: Seq<char>)
    requires
        s.wf(),
    ensures
        s.without_lease(item).wf(),
        !s.without_lease(item).is_running(item),
        s.without_lease(item).leases.len() == s.leases.len() - (if s.is_running(item) {
            1int
        } else {
            0int
        }),
        forall|other: Seq<char>|
            other != item ==> s.without_lease(item).owner(other) == s.owner(other)
                && s.without_lease(item).deadline(other) == s.deadline(other)
                && s.without_lease(item).is_running(other) == s.is_running(other),
{
    let after = s.without_lease(item);
    let at = s.lease_index(item);
    lemma_running(s, item);
    if at >= 0 {
        assert forall|i: int| 0 <= i < after.leases.len() implies #[trigger] after.leases[i] == (
        if i < at {
            s.leases[i]
        } else {
            s.leases[i + 1]
        }) by {}
        assert(after.wf()) by {
            assert forall|i: int, j: int| 0 <= i < j < after.leases.len() implies (
            #[trigger] after.leases[i]).item != (#[trigger] after.leases[j]).item by {
                let a = if i < at {
                    i
                } else {
                    i + 1
                };
                let b = if j < at {
                    j
                } else {
                    j + 1
                };
                assert(s.leases[a].item != s.leases[b].item);
            }
        }
        if some_lease_of(after.leases, item) {
            let j = choose|j: int|
                0 <= j < after.leases.len() && (#[trigger] after.leases[j]).item == item;
            let a = if j < at {
                j
            } else {
                j + 1
            };
            assert(s.leases[a].item == item);
        }
    }
    lemma_running(after, item);
    assert forall|other: Seq<char>| other != item implies after.owner(other) == s.owner(other)
        && after.deadline(other) == s.deadline(other) && after.is_running(other) == s.is_running(
        other,
    ) by {
        lemma_running(s, other);
        lemma_running(after, other);
        if at >= 0 {
            if s.is_running(other) {
                let k = s.lease_index(other);
                let a = if k < at {
                    k
                } else {
                    k - 1
                };
                assert(after.leases[a] == s.leases[k]);
                assert(some_lease_of(after.leases, other));
            }
            if after.is_running(other) {
                let k = after.lease_index(other);
                let a = if k < at {
                    k
                } else {
                    k + 1
                };
                assert(after.leases[k] == s.leases[a]);
                assert(some_lease_of(s.leases, other));
            }
        }
    }
}

/// No operation makes one item reserved twice.
pub proof fn lemma_apply_keeps_wf(s: StoreState, worker: Seq<char>, operation: OperationView)
    requires
        s.wf(),
    ensures
        s.apply(worker, operation).0.wf(),
{
    match operation {
        OperationView::Reserve { deadline } => {
            let at = s.next_reservable();
            lemma_last_index(s.queue, not_among(s.processed));
            if at >= 0 {
                lemma_with_lease(s, s.queue[at], worker, deadline);
            }
        },
        OperationView::ReserveLost { now, timeout } => {
            let at = s.first_lost(now);
            lemma_first_index(s.leases, lost_at(s.completed, now));
            if at >= 0 {
                let after = s.reserve_lost(worker, now, timeout).0;
                assert forall|i: int, j: int| 0 <= i < j < after.leases.len() implies (
                #[trigger] after.leases[i]).item != (#[trigger] after.leases[j]).item by {
                    assert(after.leases[i].item == s.leases[i].item);
                    assert(after.leases[j].item == s.leases[j].item);
                }
            }
        },
        OperationView::Acknowledge { item, error, ttl } => {
            lemma_without_lease(s, item);
        },
        OperationView::Requeue { max_requeues, global_max_requeues, item, offset } => {
            lemma_without_lease(s, item);
        },
        OperationView::Release { item } => {
            lemma_without_lease(s, item);
        },
        OperationView::Heartbeat { item, deadline } => {
            lemma_with_lease(s, item, worker, deadline);
        },
    }
}

/// An item has a deadline exactly where it has an owner, and that owner is
/// one worker.
pub proof fn lemma_running_iff_owned(s: StoreState, item: Seq<char>)
    ensures
        s.running().contains_key(item) <==> s.owners().contains_key(item),
        s.running().contains_key(item) <==> s.is_running(item),
        s.is_running(item) ==> s.owners()[item] == s.owner(item)->0 && s.running()[item]
            == s.deadline(item)->0,
{
}

/// Only the worker that holds an item acknowledges it: for that worker the
/// item becomes processed and is reserved no longer; for any other nothing
/// changes.
pub proof fn lemma_only_owner_acknowledges(
    s: StoreState,
    worker: Seq<char>,
    item: Seq<char>,
    error: Seq<char>,
    ttl: u64,
)
    requires
        s.wf(),
    ensures
        s.acknowledge(worker, item, error, ttl).1 <==> s.owner(item) == Some(worker),
        !s.acknowledge(worker, item, error, ttl).1 ==> s.acknowledge(worker, item, error, ttl).0
            == s,
        s.acknowledge(worker, item, error, ttl).1 ==> {
            let after = s.acknowledge(worker, item, error, ttl).0;
            &&& after.processed.contains(item)
            &&& !after.is_running(item)
            &&& after.len() == s.len() - 1
        },
{
    lemma_without_lease(s, item);
}

/// An item is acknowledged by one worker at most: once it is, a second
/// acknowledgement fails and changes nothing, whoever makes it.
pub proof fn lemma_second_acknowledge_fails(
    s: StoreState,
    first: Seq<char>,
    second: Seq<char>,
    item: Seq<char>,
    error: Seq<char>,
    ttl: u64,
)
    requires
        s.wf(),
        s.acknowledge(first, item, error, ttl).1,
    ensures
        ({
            let after = s.acknowledge(first, item, error, ttl).0;
            after.acknowledge(second, item, error, ttl) == (after, false)
        }),
{
    lemma_without_lease(s, item);
}

/// Only the worker that holds an item moves its deadline.
pub proof fn lemma_only_owner_heartbeats(
    s: StoreState,
    worker: Seq<char>,
    item: Seq<char>,
    deadline: u64,
)
    requires
        s.wf(),
    ensures
        s.heartbeat(worker, item, deadline).1 <==> s.owner(item) == Some(worker),
        !s.heartbeat(worker, item, deadline).1 ==> s.heartbeat(worker, item, deadline).0 == s,
        s.heartbeat(worker, item, deadline).1 ==> {
            let after = s.heartbeat(worker, item, deadline).0;
            &&& after.owner(item) == Some(worker)
            &&& after.deadline(item) == Some(deadline)
        },
{
    lemma_with_lease(s, item, worker, deadline);
}

/// Whether no item has been requeued more than `max_requeues` times, and no
/// more than `global_max_requeues` requeues have been made in all.
pub open spec fn within_caps(s: StoreState, max_requeues: usize, global_max_requeues: usize) -> bool {
    &&& forall|item: Seq<char>| s.requeue_count(item) <= max_requeues
    &&& s.requeue_total() <= global_max_requeues
}

/// The requeues of all items add up to the requeues made, and no item has
/// more of them than there are.
pub proof fn lemma_requeues_add_up(s: StoreState)
    ensures
        s.requeue_total() == s.requeues.len(),
        forall|item: Seq<char>| s.requeue_count(item) <= s.requeue_total(),
{
    vstd::seq_lib::to_multiset_len(s.requeues);
    assert forall|item: Seq<char>| s.requeue_count(item) <= s.requeue_total() by {
        lemma_count_within_len(s.requeues, item);
    }
}

/// A requeue that succeeds counts once for its item and once in all; one
/// that fails changes nothing.
pub proof fn lemma_requeue_counts(
    s: StoreState,
    max_requeues: usize,
    global_max_requeues: usize,
    item: Seq<char>,
    offset: u64,
)
    ensures
        s.requeue(max_requeues, global_max_requeues, item, offset).1 <==> s.requeue_count(item)
            < max_requeues && s.requeue_total() < global_max_requeues,
        !s.requeue(max_requeues, global_max_requeues, item, offset).1 ==> s.requeue(
            max_requeues,
            global_max_requeues,
            item,
            offset,
        ).0 == s,
        s.requeue(max_requeues, global_max_requeues, item, offset).1 ==> {
            let after = s.requeue(max_requeues, global_max_requeues, item, offset).0;
            &&& after.requeue_count(item) == s.requeue_count(item) + 1
            &&& after.requeue_total() == s.requeue_total() + 1
            &&& forall|other: Seq<char>|
                other != item ==> after.requeue_count(other) == s.requeue_count(other)
        },
{
    vstd::seq_lib::to_multiset_build(s.requeues, item);
    vstd::seq_lib::to_multiset_len(s.requeues);
    vstd::seq_lib::to_multiset_len(s.requeues.push(item));
}

/// Whatever a worker asks, as long as every requeue is asked with the same
/// two caps, no item is requeued more often than the one allows and no more
/// requeues are made in all than the other allows.
pub proof fn lemma_apply_within_caps(
    s: StoreState,
    worker: Seq<char>,
    operation: OperationView,
    max_requeues: usize,
    global_max_requeues: usize,
)
    requires
        within_caps(s, max_requeues, global_max_requeues),
        operation matches OperationView::Requeue {
            max_requeues: asked,
            global_max_requeues: asked_global,
            ..
        } ==> asked == max_requeues && asked_global == global_max_requeues,
    ensures
        within_caps(s.apply(worker, operation).0, max_requeues, global_max_requeues),
{
    let after = s.apply(worker, operation).0;
    if let OperationView::Requeue { item, offset, .. } = operation {
        lemma_requeue_counts(s, max_requeues, global_max_requeues, item, offset);
    } else {
        assert(after.requeues == s.requeues);
    }
    assert forall|other: Seq<char>| after.requeue_count(other) <= max_requeues by {
        assert(s.requeue_count(other) <= max_requeues);
    }
}

/// No operation but a requeue of an item that is not reserved adds to the
/// items still to do, and a requeue or a release of a reserved item leaves
/// their number as it is.
pub proof fn lemma_apply_len(s: StoreState, worker: Seq<char>, operation: OperationView)
    requires
        s.wf(),
        operation matches OperationView::Requeue { item, .. } ==> s.is_running(item),
    ensures
        s.apply(worker, operation).0.len() <= s.len(),
        operation is Requeue ==> s.apply(worker, operation).0.len() == s.len(),
        operation is Release ==> s.apply(worker, operation).0.len() == s.len(),
{
    match operation {
        OperationView::Reserve { deadline } => {
            let at = s.next_reservable();
            lemma_last_index(s.queue, not_among(s.processed));
            if at >= 0 {
                lemma_with_lease(s, s.queue[at], worker, deadline);
            }
        },
        OperationView::ReserveLost { now, timeout } => {
            lemma_first_index(s.leases, lost_at(s.completed, now));
        },
        OperationView::Acknowledge { item, error, ttl } => {
            lemma_without_lease(s, item);
        },
        OperationView::Requeue { max_requeues, global_max_requeues, item, offset } => {
            lemma_without_lease(s, item);
        },
        OperationView::Release { item } => {
            lemma_without_lease(s, item);
        },
        OperationView::Heartbeat { item, deadline } => {
            lemma_with_lease(s, item, worker, deadline);
        },
    }
}

/// What a worker counts as done does not go down when the items still to do
/// do not go up.
pub proof fn lemma_progress_monotone(total: Option<usize>, before: nat, after: nat)
    requires
        after <= before,
    ensures
        super::progress_of(total, super::clipped(after)) >= super::progress_of(
            total,
            super::clipped(before),
        ),
{
}

/// The place of a master status in the order of a build: unclaimed, `setup`,
/// `ready`, `finished`.
pub open spec fn status_rank(status: Option<Seq<char>>) -> nat {
    if status == Some(STATUS_SETUP@) {
        1
    } else if status == Some(STATUS_READY@) {
        2
    } else if status == Some(STATUS_FINISHED@) {
        3
    } else {
        0
    }
}

/// The four statuses stand at four places.
pub proof fn lemma_status_ranks()
    ensures
        status_rank(None) == 0,
        status_rank(Some(STATUS_SETUP@)) == 1,
        status_rank(Some(STATUS_READY@)) == 2,
        status_rank(Some(STATUS_FINISHED@)) == 3,
{
    reveal_strlit("setup");
    reveal_strlit("ready");
    reveal_strlit("finished");
    assert(STATUS_SETUP@[0] == 's');
    assert(STATUS_READY@[0] == 'r');
    assert(STATUS_FINISHED@.len() == 8);
    assert(STATUS_READY@.len() == 5);
}

/// None of the six operations touches the master status, the total or the
/// registered workers.
pub proof fn lemma_apply_keeps_status(s: StoreState, worker: Seq<char>, operation: OperationView)
    ensures
        s.apply(worker, operation).0.master_status == s.master_status,
        s.apply(worker, operation).0.total == s.total,
        s.apply(worker, operation).0.workers == s.workers,
{
}

/// The election moves the master status forward or leaves it: the caller
/// wins where the build is unclaimed, and the status is then `setup`.
pub proof fn lemma_claim_master_status(s: StoreState)
    ensures
        status_rank(s.claim_master().0.master_status) >= status_rank(s.master_status),
        s.claim_master().1 <==> s.master_status is None,
        s.claim_master().1 ==> s.claim_master().0.master_status == Some(STATUS_SETUP@),
        !s.claim_master().1 ==> s.claim_master().0 == s,
{
    lemma_status_ranks();
}

/// The election has one winner: once a worker has taken part, no worker
/// wins, whatever the workers ask of the store in between.
pub proof fn lemma_election_has_one_winner(s: StoreState, steps: Seq<Step>)
    ensures
        !run(s.claim_master().0, steps).claim_master().1,
    decreases steps.len(),
{
    if steps.len() > 0 {
        lemma_election_has_one_winner(s, steps.drop_last());
        lemma_apply_keeps_status(
            run(s.claim_master().0, steps.drop_last()),
            steps.last().worker,
            steps.last().operation,
        );
    }
}

/// The master's transaction moves the master status forward, from any
/// status but `finished`.
pub proof fn lemma_publish_status(s: StoreState, items: Seq<Seq<char>>)
    requires
        s.master_status != Some(STATUS_FINISHED@),
    ensures
        status_rank(s.publish(items).master_status) >= status_rank(s.master_status),
{
    lemma_status_ranks();
}

/// The state after a worker has taken part in the election with `items`.
pub open spec fn after_election(s: StoreState, worker: Seq<char>, items: Seq<Seq<char>>) -> StoreState {
    (if s.claim_master().1 {
        s.claim_master().0.publish(items)
    } else {
        s
    }).register_worker(worker)
}

/// A worker that takes part in the election never moves the master status
/// back: an unclaimed build becomes `ready`, and any other stays as it is.
pub proof fn lemma_election_status(s: StoreState, worker: Seq<char>, items: Seq<Seq<char>>)
    ensures
        status_rank(after_election(s, worker, items).master_status) >= status_rank(
            s.master_status,
        ),
        s.master_status is None ==> after_election(s, worker, items).master_status == Some(
            STATUS_READY@,
        ),
        s.master_status is Some ==> after_election(s, worker, items).master_status
            == s.master_status,
{
    lemma_status_ranks();
}

/// Where a reservation is lost at `now`, `reserve_lost` hands the first
/// lost one to the caller, who holds it for the timeout, and its deadline
/// does not move back. Where the reservation of `item` is the only one that
/// is lost, it is `item` that is handed over.
pub proof fn lemma_lost_is_recovered(
    s: StoreState,
    worker: Seq<char>,
    now: u64,
    timeout: usize,
    item: Seq<char>,
)
    requires
        s.wf(),
        s.is_running(item),
        s.deadline(item)->0 <= now,
        !s.completed.contains(item),
    ensures
        ({
            let (after, handed) = s.reserve_lost(worker, now, timeout);
            &&& handed is Some
            &&& s.is_running(handed->0)
            &&& s.deadline(handed->0)->0 <= now
            &&& !s.completed.contains(handed->0)
            &&& after.owner(handed->0) == Some(worker)
            &&& after.deadline(handed->0) == Some(deadline_after(now, timeout))
            &&& after.deadline(handed->0)->0 >= s.deadline(handed->0)->0
            &&& after.queue == s.queue
            &&& (forall|j: int|
                0 <= j < s.leases.len() && (#[trigger] s.leases[j]).item != item ==> !lost_at(
                    s.completed,
                    now,
                )(s.leases[j])) ==> handed == Some(item)
        }),
{
    lemma_running(s, item);
    lemma_first_index(s.leases, lost_at(s.completed, now));
    let k = s.lease_index(item);
    assert(lost_at(s.completed, now)(s.leases[k]));
    let at = s.first_lost(now);
    let (after, handed) = s.reserve_lost(worker, now, timeout);
    let got = s.leases[at].item;
    lemma_running(s, got);
    assert(some_lease_of(s.leases, got));
    assert(after.leases[at].item == got);
    assert(some_lease_of(after.leases, got));
    lemma_apply_keeps_wf(s, worker, OperationView::ReserveLost { now, timeout });
    lemma_running(after, got);
}

/// As long as no deadline has passed, no reservation changes hands.
pub proof fn lemma_no_timeout_no_recovery(s: StoreState, worker: Seq<char>, now: u64, timeout: usize)
    requires
        forall|j: int| 0 <= j < s.leases.len() ==> (#[trigger] s.leases[j]).deadline > now,
    ensures
        s.reserve_lost(worker, now, timeout) == (s, None::<Seq<char>>),
{
    lemma_first_index(s.leases, lost_at(s.completed, now));
}

/// `1` where `held` and `0` where not.
pub open spec fn one_if(held: bool) -> nat {
    if held {
        1
    } else {
        0
    }
}

/// In how many places `item` is: waiting, reserved, processed.
pub open spec fn places(s: StoreState, item: Seq<char>) -> nat {
    let waiting: nat = if s.queue.contains(item) {
        1
    } else {
        0
    };
    let reserved: nat = if s.is_running(item) {
        1
    } else {
        0
    };
    let processed: nat = if s.processed.contains(item) {
        1
    } else {
        0
    };
    waiting + reserved + processed
}

/// Whether the store accounts for `items`: each of them waits, is reserved or
/// is processed, and only one of the three; it waits once and is reserved
/// once; and nothing else is in the store.
pub open spec fn accounts_for(s: StoreState, items: Set<Seq<char>>) -> bool {
    &&& s.wf()
    &&& s.queue.no_duplicates()
    &&& forall|item: Seq<char>| #[trigger]
        places(s, item) == (if items.contains(item) {
            1nat
        } else {
            0nat
        })
}

proof fn lemma_drop_last_contains<A>(q: Seq<A>, x: A)
    requires
        q.len() > 0,
        q.no_duplicates(),
    ensures
        q.drop_last().no_duplicates(),
        q.drop_last().contains(x) <==> q.contains(x) && x != q.last(),
{
    let r = q.drop_last();
    if r.contains(x) {
        let i = choose|i: int| 0 <= i < r.len() && r[i] == x;
        assert(q[i] == x);
    }
    if q.contains(x) && x != q.last() {
        let i = choose|i: int| 0 <= i < q.len() && q[i] == x;
        assert(r[i] == x);
    }
}

proof fn lemma_insert_contains<A>(q: Seq<A>, at: int, y: A, x: A)
    requires
        0 <= at <= q.len(),
        q.no_duplicates(),
        !q.contains(y),
    ensures
        q.insert(at, y).no_duplicates(),
        q.insert(at, y).contains(x) <==> q.contains(x) || x == y,
{
    let r = q.insert(at, y);
    assert forall|i: int| 0 <= i < r.len() implies #[trigger] r[i] == (if i < at {
        q[i]
    } else if i == at {
        y
    } else {
        q[i - 1]
    }) by {}
    assert forall|i: int, j: int| 0 <= i < r.len() && 0 <= j < r.len() && i != j implies r[i]
        != r[j] by {
        let a = if i < at {
            i
        } else {
            i - 1
        };
        let b = if j < at {
            j
        } else {
            j - 1
        };
        if i != at && j != at {
            assert(q[a] != q[b]);
        } else if i == at {
            assert(q.contains(q[b]));
        } else {
            assert(q.contains(q[a]));
        }
    }
    if r.contains(x) {
        let i = choose|i: int| 0 <= i < r.len() && r[i] == x;
        if i != at {
            let a = if i < at {
                i
            } else {
                i - 1
            };
            assert(q[a] == x);
        }
    }
    if q.contains(x) {
        let i = choose|i: int| 0 <= i < q.len() && q[i] == x;
        let a = if i < at {
            i
        } else {
            i + 1
        };
        assert(r[a] == x);
    }
    assert(r[at] == y);
}

/// A queue that the master has populated with items that differ, in a store
/// that held none, accounts for them.
pub proof fn lemma_publish_accounts(s: StoreState, items: Seq<Seq<char>>)
    requires
        items.no_duplicates(),
        s.queue.len() == 0,
        s.leases.len() == 0,
        s.processed == Set::<Seq<char>>::empty(),
    ensures
        accounts_for(s.publish(items), items.to_set()),
        s.publish(items).len() == items.len(),
        s.publish(items).total == Some(items.len() as usize),
{
    let after = s.publish(items);
    assert(after.queue =~= items.reverse());
    assert forall|i: int, j: int|
        0 <= i < after.queue.len() && 0 <= j < after.queue.len() && i != j implies after.queue[i]
        != after.queue[j] by {
        assert(after.queue[i] == items[items.len() - 1 - i]);
        assert(after.queue[j] == items[items.len() - 1 - j]);
    }
    assert forall|item: Seq<char>| #[trigger]
        places(after, item) == (if items.to_set().contains(item) {
            1nat
        } else {
            0nat
        }) by {
        lemma_running(after, item);
        if items.contains(item) {
            let i = choose|i: int| 0 <= i < items.len() && items[i] == item;
            assert(after.queue[items.len() - 1 - i] == item);
        }
        if after.queue.contains(item) {
            let i = choose|i: int| 0 <= i < after.queue.len() && after.queue[i] == item;
            assert(items[items.len() - 1 - i] == item);
        }
    }
}

/// In a store that accounts for its items, `reserve` hands out the item at
/// the tail of the queue and drops none on the way.
pub proof fn lemma_reserve_hands_tail(
    s: StoreState,
    items: Set<Seq<char>>,
    worker: Seq<char>,
    deadline: u64,
)
    requires
        accounts_for(s, items),
    ensures
        s.queue.len() == 0 ==> s.reserve(worker, deadline) == (s, None::<Seq<char>>),
        s.queue.len() > 0 ==> {
            let (after, handed) = s.reserve(worker, deadline);
            &&& handed == Some(s.queue.last())
            &&& after.queue == s.queue.drop_last()
            &&& after.owner(s.queue.last()) == Some(worker)
            &&& after.deadline(s.queue.last()) == Some(deadline)
            &&& after.len() == s.len()
        },
{
    lemma_last_index(s.queue, not_among(s.processed));
    if s.queue.len() > 0 {
        let tail = s.queue.last();
        assert(s.queue.contains(tail));
        assert(places(s, tail) <= 1);
        assert(not_among(s.processed)(s.queue[s.queue.len() - 1]));
        lemma_with_lease(s, tail, worker, deadline);
        assert(s.queue.take(s.queue.len() - 1) =~= s.queue.drop_last());
    } else {
        assert(s.queue =~= Seq::empty());
    }
}

/// Whatever a worker asks, as long as it requeues only what is reserved, the
/// store goes on accounting for its items: none is lost and none is doubled.
pub proof fn lemma_apply_keeps_account(
    s: StoreState,
    items: Set<Seq<char>>,
    worker: Seq<char>,
    operation: OperationView,
)
    requires
        accounts_for(s, items),
        operation matches OperationView::Requeue { item, .. } ==> s.is_running(item),
    ensures
        accounts_for(s.apply(worker, operation).0, items),
{
    let after = s.apply(worker, operation).0;
    lemma_apply_keeps_wf(s, worker, operation);
    match operation {
        OperationView::Reserve { deadline } => {
            lemma_reserve_hands_tail(s, items, worker, deadline);
            if s.queue.len() > 0 {
                let tail = s.queue.last();
                lemma_with_lease(s, tail, worker, deadline);
                assert forall|item: Seq<char>| #[trigger]
                    places(after, item) == (if items.contains(item) {
                        1nat
                    } else {
                        0nat
                    }) by {
                    lemma_drop_last_contains(s.queue, item);
                    assert(s.queue.contains(tail));
                    assert(places(s, tail) == (if items.contains(tail) {
                        1nat
                    } else {
                        0nat
                    }));
                    assert(places(s, item) == (if items.contains(item) {
                        1nat
                    } else {
                        0nat
                    }));
                }
                lemma_drop_last_contains(s.queue, tail);
            }
        },
        OperationView::ReserveLost { now, timeout } => {
            lemma_first_index(s.leases, lost_at(s.completed, now));
            let at = s.first_lost(now);
            if at >= 0 {
                assert forall|item: Seq<char>| #[trigger]
                    places(after, item) == (if items.contains(item) {
                        1nat
                    } else {
                        0nat
                    }) by {
                    lemma_running(s, item);
                    lemma_running(after, item);
                    if some_lease_of(s.leases, item) {
                        let j = choose|j: int|
                            0 <= j < s.leases.len() && (#[trigger] s.leases[j]).item == item;
                        assert(after.leases[j].item == item);
                    }
                    if some_lease_of(after.leases, item) {
                        let j = choose|j: int|
                            0 <= j < after.leases.len() && (#[trigger] after.leases[j]).item
                                == item;
                        assert(s.leases[j].item == item);
                    }
                    assert(places(s, item) == (if items.contains(item) {
                        1nat
                    } else {
                        0nat
                    }));
                }
            }
        },
        OperationView::Acknowledge { item: acked, error, ttl } => {
            lemma_without_lease(s, acked);
            if s.owner(acked) == Some(worker) {
                assert forall|item: Seq<char>| #[trigger]
                    places(after, item) == (if items.contains(item) {
                        1nat
                    } else {
                        0nat
                    }) by {
                    assert(places(s, item) == (if items.contains(item) {
                        1nat
                    } else {
                        0nat
                    }));
                }
            }
        },
        OperationView::Requeue { max_requeues, global_max_requeues, item: back, offset } => {
            lemma_without_lease(s, back);
            if s.requeue(max_requeues, global_max_requeues, back, offset).1 {
                let at = StoreState::requeue_position(s.queue.len(), offset);
                assert(places(s, back) <= 1);
                assert forall|item: Seq<char>| #[trigger]
                    places(after, item) == (if items.contains(item) {
                        1nat
                    } else {
                        0nat
                    }) by {
                    lemma_insert_contains(s.queue, at, back, item);
                    assert(places(s, item) == (if items.contains(item) {
                        1nat
                    } else {
                        0nat
                    }));
                }
                lemma_insert_contains(s.queue, at, back, back);
            }
        },
        OperationView::Release { item: back } => {
            lemma_without_lease(s, back);
            if s.is_running(back) {
                assert(places(s, back) <= 1);
                assert(s.queue.push(back) =~= s.queue.insert(s.queue.len() as int, back));
                assert forall|item: Seq<char>| #[trigger]
                    places(after, item) == (if items.contains(item) {
                        1nat
                    } else {
                        0nat
                    }) by {
                    lemma_insert_contains(s.queue, s.queue.len() as int, back, item);
                    assert(places(s, item) == (if items.contains(item) {
                        1nat
                    } else {
                        0nat
                    }));
                }
                lemma_insert_contains(s.queue, s.queue.len() as int, back, back);
            }
        },
        OperationView::Heartbeat { item: held, deadline } => {
            lemma_with_lease(s, held, worker, deadline);
            if s.owner(held) == Some(worker) {
                assert forall|item: Seq<char>| #[trigger]
                    places(after, item) == (if items.contains(item) {
                        1nat
                    } else {
                        0nat
                    }) by {
                    assert(places(s, item) == (if items.contains(item) {
                        1nat
                    } else {
                        0nat
                    }));
                }
            }
        },
    }
}

/// Once nothing waits and nothing is reserved, every item has been
/// acknowledged, and nothing else has.
pub proof fn lemma_drained_all_processed(s: StoreState, items: Set<Seq<char>>)
    requires
        accounts_for(s, items),
        s.len() == 0,
    ensures
        s.processed == items,
{
    assert forall|item: Seq<char>| s.processed.contains(item) <==> items.contains(item) by {
        assert(places(s, item) == (if items.contains(item) {
            1nat
        } else {
            0nat
        }));
        lemma_running(s, item);
        if s.queue.contains(item) {
            assert(false);
        }
    }
    assert(s.processed =~= items);
}

/// An acknowledgement that succeeds adds one item to those that are
/// processed: the acknowledgements that have succeeded are as many as the
/// items that are processed, each item counted once.
pub proof fn lemma_acknowledge_counts(
    s: StoreState,
    items: Set<Seq<char>>,
    worker: Seq<char>,
    item: Seq<char>,
    error: Seq<char>,
    ttl: u64,
)
    requires
        accounts_for(s, items),
        s.processed.finite(),
        s.acknowledge(worker, item, error, ttl).1,
    ensures
        !s.processed.contains(item),
        s.acknowledge(worker, item, error, ttl).0.processed == s.processed.insert(item),
        s.acknowledge(worker, item, error, ttl).0.processed.len() == s.processed.len() + 1,
{
    assert(places(s, item) <= 1);
}

/// Whether every requeue among `steps` is of an item that is reserved when
/// it is asked for.
pub open spec fn requeues_what_is_reserved(s: StoreState, steps: Seq<Step>) -> bool
    decreases steps.len(),
{
    steps.len() == 0 || {
        &&& requeues_what_is_reserved(s, steps.drop_last())
        &&& steps.last().operation matches OperationView::Requeue { item, .. } ==> run(
            s,
            steps.drop_last(),
        ).is_running(item)
    }
}

/// Whether every requeue among `steps` is asked with the two caps.
pub open spec fn requeues_with_caps(
    steps: Seq<Step>,
    max_requeues: usize,
    global_max_requeues: usize,
) -> bool {
    forall|i: int|
        0 <= i < steps.len() ==> ((#[trigger] steps[i]).operation matches OperationView::Requeue {
            max_requeues: asked,
            global_max_requeues: asked_global,
            ..
        } ==> asked == max_requeues && asked_global == global_max_requeues)
}

/// Whether `step`, asked of the store in the state `s`, is an
/// acknowledgement of `item` that succeeds.
pub open spec fn acknowledges(s: StoreState, step: Step, item: Seq<char>) -> bool {
    match step.operation {
        OperationView::Acknowledge { item: acked, error, ttl } => acked == item && s.acknowledge(
            step.worker,
            acked,
            error,
            ttl,
        ).1,
        _ => false,
    }
}

/// Whether `step`, asked of the store in the state `s`, makes a reservation
/// of `item`.
pub open spec fn reserves(s: StoreState, step: Step, item: Seq<char>) -> bool {
    match step.operation {
        OperationView::Reserve { deadline } => s.reserve(step.worker, deadline).1 == Some(item),
        OperationView::ReserveLost { now, timeout } => s.reserve_lost(step.worker, now, timeout).1
            == Some(item),
        _ => false,
    }
}

/// How many of `steps` are acknowledgements of `item` that succeed.
pub open spec fn acknowledgements(s: StoreState, steps: Seq<Step>, item: Seq<char>) -> nat
    decreases steps.len(),
{
    if steps.len() == 0 {
        0
    } else {
        acknowledgements(s, steps.drop_last(), item) + (if acknowledges(
            run(s, steps.drop_last()),
            steps.last(),
            item,
        ) {
            1nat
        } else {
            0nat
        })
    }
}

/// How many of `steps` make a reservation of `item`.
pub open spec fn reservations(s: StoreState, steps: Seq<Step>, item: Seq<char>) -> nat
    decreases steps.len(),
{
    if steps.len() == 0 {
        0
    } else {
        reservations(s, steps.drop_last(), item) + (if reserves(
            run(s, steps.drop_last()),
            steps.last(),
            item,
        ) {
            1nat
        } else {
            0nat
        })
    }
}

/// Whether no step of `steps` takes a reservation from its holder or gives an
/// item back to the queue: no deadline has passed when a lost reservation is
/// asked for, and nothing is requeued or released.
pub open spec fn no_timeout_fires(s: StoreState, steps: Seq<Step>) -> bool
    decreases steps.len(),
{
    steps.len() == 0 || {
        &&& no_timeout_fires(s, steps.drop_last())
        &&& match steps.last().operation {
            OperationView::ReserveLost { now, timeout } => run(
                s,
                steps.drop_last(),
            ).reserve_lost(steps.last().worker, now, timeout).1 is None,
            OperationView::Requeue { .. } => false,
            OperationView::Release { .. } => false,
            _ => true,
        }
    }
}

/// Over any number of requests by any workers in any order: as long as the
/// workers requeue only what is reserved, the store goes on accounting for
/// its items, the items still to do never become more, what is processed
/// stays processed, and the master status stays. As long as they ask with the
/// same two caps, the requeues stay within them.
pub proof fn lemma_run_keeps_account(s: StoreState, items: Set<Seq<char>>, steps: Seq<Step>)
    requires
        accounts_for(s, items),
        requeues_what_is_reserved(s, steps),
    ensures
        accounts_for(run(s, steps), items),
        run(s, steps).len() <= s.len(),
        run(s, steps).master_status == s.master_status,
        run(s, steps).total == s.total,
        forall|item: Seq<char>| s.processed.contains(item) ==> run(s, steps).processed.contains(item),
        forall|max_requeues: usize, global_max_requeues: usize|
            within_caps(s, max_requeues, global_max_requeues) && requeues_with_caps(
                steps,
                max_requeues,
                global_max_requeues,
            ) ==> within_caps(run(s, steps), max_requeues, global_max_requeues),
    decreases steps.len(),
{
    if steps.len() > 0 {
        let before = run(s, steps.drop_last());
        let last = steps.last();
        lemma_run_keeps_account(s, items, steps.drop_last());
        lemma_apply_keeps_account(before, items, last.worker, last.operation);
        lemma_apply_len(before, last.worker, last.operation);
        lemma_apply_keeps_status(before, last.worker, last.operation);
        assert forall|max_requeues: usize, global_max_requeues: usize|
            within_caps(s, max_requeues, global_max_requeues) && requeues_with_caps(
                steps,
                max_requeues,
                global_max_requeues,
            ) implies within_caps(run(s, steps), max_requeues, global_max_requeues) by {
            assert forall|i: int| 0 <= i < steps.drop_last().len() implies ((
            #[trigger] steps.drop_last()[i]).operation matches OperationView::Requeue {
                max_requeues: asked,
                global_max_requeues: asked_global,
                ..
            } ==> asked == max_requeues && asked_global == global_max_requeues) by {
                assert(steps.drop_last()[i] == steps[i]);
            }
            assert(steps[steps.len() - 1] == last);
            lemma_apply_within_caps(
                before,
                last.worker,
                last.operation,
                max_requeues,
                global_max_requeues,
            );
        }
    }
}

/// Whatever the workers ask, as long as they requeue only what is reserved,
/// no item is acknowledged twice: the acknowledgements of an item that have
/// succeeded are one where the item has become processed, and none where it
/// has not.
pub proof fn lemma_acknowledged_once(
    s: StoreState,
    items: Set<Seq<char>>,
    steps: Seq<Step>,
    item: Seq<char>,
)
    requires
        accounts_for(s, items),
        requeues_what_is_reserved(s, steps),
    ensures
        acknowledgements(s, steps, item) + one_if(s.processed.contains(item)) == one_if(
            run(s, steps).processed.contains(item),
        ),
    decreases steps.len(),
{
    if steps.len() > 0 {
        let before = run(s, steps.drop_last());
        let last = steps.last();
        lemma_acknowledged_once(s, items, steps.drop_last(), item);
        lemma_run_keeps_account(s, items, steps.drop_last());
        assert(places(before, item) <= 1);
        match last.operation {
            OperationView::Acknowledge { item: acked, error, ttl } => {
                lemma_without_lease(before, acked);
            },
            _ => {},
        }
    }
}

/// The master populates an untouched store with items that differ, and
/// workers ask what they will, requeuing only what is reserved. Once nothing
/// waits and nothing is reserved, every item has been acknowledged exactly
/// once, and the items processed are as many as the total.
pub proof fn lemma_completeness(items: Seq<Seq<char>>, steps: Seq<Step>, item: Seq<char>)
    requires
        items.no_duplicates(),
        items.len() <= usize::MAX,
        requeues_what_is_reserved(StoreState::empty().publish(items), steps),
        run(StoreState::empty().publish(items), steps).len() == 0,
    ensures
        run(StoreState::empty().publish(items), steps).processed == items.to_set(),
        run(StoreState::empty().publish(items), steps).processed.len() == items.len(),
        run(StoreState::empty().publish(items), steps).total == Some(items.len() as usize),
        items.contains(item) ==> acknowledgements(
            StoreState::empty().publish(items),
            steps,
            item,
        ) == 1,
        !items.contains(item) ==> acknowledgements(
            StoreState::empty().publish(items),
            steps,
            item,
        ) == 0,
{
    let start = StoreState::empty().publish(items);
    lemma_publish_accounts(StoreState::empty(), items);
    lemma_run_keeps_account(start, items.to_set(), steps);
    lemma_drained_all_processed(run(start, steps), items.to_set());
    lemma_acknowledged_once(start, items.to_set(), steps, item);
    items.unique_seq_to_set();
}

/// As long as no timeout fires, and nothing is requeued or released, no item
/// is reserved twice: the reservations of an item are one where the item has
/// left the queue, and none where it has not.
pub proof fn lemma_reserved_once(
    s: StoreState,
    items: Set<Seq<char>>,
    steps: Seq<Step>,
    item: Seq<char>,
)
    requires
        accounts_for(s, items),
        no_timeout_fires(s, steps),
    ensures
        requeues_what_is_reserved(s, steps),
        reservations(s, steps, item) + one_if(run(s, steps).queue.contains(item)) == one_if(
            s.queue.contains(item),
        ),
    decreases steps.len(),
{
    if steps.len() > 0 {
        let before = run(s, steps.drop_last());
        let last = steps.last();
        lemma_reserved_once(s, items, steps.drop_last(), item);
        lemma_run_keeps_account(s, items, steps.drop_last());
        match last.operation {
            OperationView::Reserve { deadline } => {
                lemma_reserve_hands_tail(before, items, last.worker, deadline);
                if before.queue.len() > 0 {
                    lemma_drop_last_contains(before.queue, item);
                    assert(before.queue.contains(before.queue.last()));
                }
            },
            OperationView::Acknowledge { item: acked, error, ttl } => {},
            OperationView::Heartbeat { item: held, deadline } => {},
            _ => {},
        }
    }
}

/// Where no timeout fires and nothing is requeued or released, every item is
/// reserved exactly once and acknowledged exactly once by the time the store
/// is drained.
pub proof fn lemma_happy_path(items: Seq<Seq<char>>, steps: Seq<Step>, item: Seq<char>)
    requires
        items.no_duplicates(),
        items.len() <= usize::MAX,
        items.contains(item),
        no_timeout_fires(StoreState::empty().publish(items), steps),
        run(StoreState::empty().publish(items), steps).len() == 0,
    ensures
        reservations(StoreState::empty().publish(items), steps, item) == 1,
        acknowledgements(StoreState::empty().publish(items), steps, item) == 1,
{
    let start = StoreState::empty().publish(items);
    lemma_publish_accounts(StoreState::empty(), items);
    lemma_reserved_once(start, items.to_set(), steps, item);
    lemma_completeness(items, steps, item);
    let i = choose|i: int| 0 <= i < items.len() && items[i] == item;
    assert(start.queue =~= items.reverse());
    assert(start.queue[items.len() - 1 - i] == item);
    assert(run(start, steps).queue.len() == 0);
}

/// The items of the reservations, in order.
pub open spec fn leased_items(leases: Seq<LeaseView>) -> Seq<Seq<char>> {
    Seq::new(leases.len(), |i: int| leases[i].item)
}

/// In a store that accounts for its items, the items that wait, those that
/// are reserved and those that are processed are as many as there are items:
/// as many as the total, once the master has populated the queue with items
/// that differ.
pub proof fn lemma_accounted_sizes(s: StoreState, items: Set<Seq<char>>)
    requires
        accounts_for(s, items),
        items.finite(),
    ensures
        s.processed.finite(),
        s.queue.len() + s.leases.len() + s.processed.len() == items.len(),
{
    let waiting = s.queue.to_set();
    let names = leased_items(s.leases);
    let reserved = names.to_set();
    assert(names.no_duplicates()) by {
        assert forall|i: int, j: int| 0 <= i < names.len() && 0 <= j < names.len() && i
            != j implies names[i] != names[j] by {
            if i < j {
                assert(s.leases[i].item != s.leases[j].item);
            } else {
                assert(s.leases[j].item != s.leases[i].item);
            }
        }
    }
    s.queue.unique_seq_to_set();
    names.unique_seq_to_set();
    assert forall|item: Seq<char>| reserved.contains(item) <==> s.is_running(item) by {
        lemma_running(s, item);
        if reserved.contains(item) {
            let i = choose|i: int| 0 <= i < names.len() && names[i] == item;
            assert(s.leases[i].item == item);
        }
        if s.is_running(item) {
            assert(names[s.lease_index(item)] == item);
        }
    }
    assert forall|item: Seq<char>|
        (waiting.contains(item) || reserved.contains(item) || s.processed.contains(item))
            == items.contains(item) && !(waiting.contains(item) && reserved.contains(item)) && !(
        waiting.contains(item) && s.processed.contains(item)) && !(reserved.contains(item)
            && s.processed.contains(item)) by {
        assert(places(s, item) == one_if(items.contains(item)));
    }
    assert(s.processed.subset_of(items));
    vstd::set_lib::lemma_len_subset(s.processed, items);
    assert(waiting.finite() && reserved.finite());
    assert(waiting.disjoint(reserved));
    vstd::set_lib::lemma_set_disjoint_lens(waiting, reserved);
    assert((waiting + reserved).disjoint(s.processed));
    vstd::set_lib::lemma_set_disjoint_lens(waiting + reserved, s.processed);
    assert(waiting + reserved + s.processed =~= items);
}

/// The deadline of a reservation does not move back when the reservation is
/// handed to another worker, nor when its holder moves it to a later time,
/// and no other operation touches the deadline of a reservation that it
/// leaves in place.
pub proof fn lemma_deadlines_move_forward(
    s: StoreState,
    items: Set<Seq<char>>,
    worker: Seq<char>,
    operation: OperationView,
    item: Seq<char>,
)
    requires
        accounts_for(s, items),
        s.is_running(item),
        s.apply(worker, operation).0.is_running(item),
        operation matches OperationView::Heartbeat { item: held, deadline } ==> held == item
            ==> deadline >= s.deadline(item)->0,
        operation matches OperationView::Requeue { item: back, .. } ==> s.is_running(back),
    ensures
        s.apply(worker, operation).0.deadline(item)->0 >= s.deadline(item)->0,
{
    let after = s.apply(worker, operation).0;
    lemma_running(s, item);
    match operation {
        OperationView::Reserve { deadline } => {
            lemma_reserve_hands_tail(s, items, worker, deadline);
            if s.queue.len() > 0 {
                let tail = s.queue.last();
                assert(s.queue.contains(tail));
                assert(places(s, tail) <= 1);
                assert(places(s, item) <= 1);
                lemma_with_lease(s, tail, worker, deadline);
            }
        },
        OperationView::ReserveLost { now, timeout } => {
            lemma_first_index(s.leases, lost_at(s.completed, now));
            let at = s.first_lost(now);
            if at >= 0 {
                lemma_apply_keeps_wf(s, worker, operation);
                lemma_running(after, item);
                let k = s.lease_index(item);
                assert(after.leases[k].item == item);
                assert(after.lease_index(item) == k);
            }
        },
        OperationView::Acknowledge { item: acked, error, ttl } => {
            lemma_without_lease(s, acked);
        },
        OperationView::Requeue { max_requeues, global_max_requeues, item: back, offset } => {
            lemma_without_lease(s, back);
        },
        OperationView::Release { item: back } => {
            lemma_without_lease(s, back);
        },
        OperationView::Heartbeat { item: held, deadline } => {
            lemma_with_lease(s, held, worker, deadline);
        },
    }
}

/// What a worker counts as done never goes down, whatever any workers ask in
/// between, as long as they requeue only what is reserved.
pub proof fn lemma_run_progress(
    s: StoreState,
    items: Set<Seq<char>>,
    steps: Seq<Step>,
    total: Option<usize>,
)
    requires
        accounts_for(s, items),
        requeues_what_is_reserved(s, steps),
    ensures
        run(s, steps).len() <= s.len(),
        super::progress_of(total, super::clipped(run(s, steps).len())) >= super::progress_of(
            total,
            super::clipped(s.len()),
        ),
{
    lemma_run_keeps_account(s, items, steps);
    lemma_progress_monotone(total, s.len(), run(s, steps).len());
}

} // verus!

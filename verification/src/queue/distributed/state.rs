//! The state of one build in the shared store, as plain mathematics, and the
//! atomic operations on it.
//!
//! Every operation is a function from the state before to the state after and
//! what the caller is told. The store in [`super::store`] computes them, and
//! [`super::laws`] states what follows.
use vstd::prelude::*;

verus! {

/// The least index of `s` at which `p` holds, or `-1`.
pub open spec fn first_index<A>(s: Seq<A>, p: spec_fn(A) -> bool) -> int
    decreases s.len(),
{
    if s.len() == 0 {
        -1
    } else {
        let before = first_index(s.drop_last(), p);
        if before >= 0 {
            before
        } else if p(s.last()) {
            s.len() - 1
        } else {
            -1
        }
    }
}

/// The greatest index of `s` at which `p` holds, or `-1`.
pub open spec fn last_index<A>(s: Seq<A>, p: spec_fn(A) -> bool) -> int
    decreases s.len(),
{
    if s.len() == 0 {
        -1
    } else if p(s.last()) {
        s.len() - 1
    } else {
        last_index(s.drop_last(), p)
    }
}

/// `first_index` is an index at which `p` holds and before which it does not,
/// or `-1` where `p` holds nowhere.
pub proof fn lemma_first_index<A>(s: Seq<A>, p: spec_fn(A) -> bool)
    ensures
        -1 <= first_index(s, p) < s.len(),
        first_index(s, p) >= 0 ==> p(s[first_index(s, p)]),
        forall|j: int| 0 <= j < s.len() && p(#[trigger] s[j]) ==> 0 <= first_index(s, p) <= j,
    decreases s.len(),
{
    if s.len() > 0 {
        lemma_first_index(s.drop_last(), p);
        assert forall|j: int| 0 <= j < s.len() && p(#[trigger] s[j]) implies 0 <= first_index(
            s,
            p,
        ) <= j by {
            if j < s.len() - 1 {
                assert(s.drop_last()[j] == s[j]);
            }
        }
    }
}

/// `last_index` is an index at which `p` holds and after which it does not,
/// or `-1` where `p` holds nowhere.
pub proof fn lemma_last_index<A>(s: Seq<A>, p: spec_fn(A) -> bool)
    ensures
        -1 <= last_index(s, p) < s.len(),
        last_index(s, p) >= 0 ==> p(s[last_index(s, p)]),
        forall|j: int| 0 <= j < s.len() && p(#[trigger] s[j]) ==> j <= last_index(s, p),
    decreases s.len(),
{
    if s.len() > 0 {
        lemma_last_index(s.drop_last(), p);
        assert forall|j: int| 0 <= j < s.len() && p(#[trigger] s[j]) implies j <= last_index(
            s,
            p,
        ) by {
            if j < s.len() - 1 {
                assert(s.drop_last()[j] == s[j]);
            }
        }
    }
}

/// The index at which `p` holds first is `first_index`.
pub proof fn lemma_first_index_is<A>(s: Seq<A>, p: spec_fn(A) -> bool, at: int)
    requires
        0 <= at < s.len(),
        p(s[at]),
        forall|j: int| 0 <= j < at ==> !p(#[trigger] s[j]),
    ensures
        first_index(s, p) == at,
{
    lemma_first_index(s, p);
}

/// Where `p` holds nowhere, `first_index` is `-1`.
pub proof fn lemma_first_index_none<A>(s: Seq<A>, p: spec_fn(A) -> bool)
    requires
        forall|j: int| 0 <= j < s.len() ==> !p(#[trigger] s[j]),
    ensures
        first_index(s, p) == -1,
{
    lemma_first_index(s, p);
}

/// The index at which `p` holds last is `last_index`.
pub proof fn lemma_last_index_is<A>(s: Seq<A>, p: spec_fn(A) -> bool, at: int)
    requires
        0 <= at < s.len(),
        p(s[at]),
        forall|j: int| at < j < s.len() ==> !p(#[trigger] s[j]),
    ensures
        last_index(s, p) == at,
{
    lemma_last_index(s, p);
}

/// Where `p` holds nowhere, `last_index` is `-1`.
pub proof fn lemma_last_index_none<A>(s: Seq<A>, p: spec_fn(A) -> bool)
    requires
        forall|j: int| 0 <= j < s.len() ==> !p(#[trigger] s[j]),
    ensures
        last_index(s, p) == -1,
{
    lemma_last_index(s, p);
}

/// No item occurs in a sequence more often than the sequence is long.
pub proof fn lemma_count_within_len<A>(s: Seq<A>, x: A)
    ensures
        s.to_multiset().count(x) <= s.len(),
    decreases s.len(),
{
    if s.len() == 0 {
        vstd::seq_lib::to_multiset_len(s);
        vstd::multiset::lemma_multiset_empty_len(s.to_multiset());
    } else {
        lemma_count_within_len(s.drop_last(), x);
        vstd::seq_lib::to_multiset_build(s.drop_last(), s.last());
        assert(s.drop_last().push(s.last()) =~= s);
    }
}

/// A reservation: `owner` holds `item` until `deadline`.
pub struct LeaseView {
    pub item: Seq<char>,
    pub owner: Seq<char>,
    /// Microseconds since the epoch.
    pub deadline: u64,
}

/// The error that an item was acknowledged with.
pub struct ErrorReportView {
    pub payload: Seq<char>,
    /// Seconds for which the store keeps the report.
    pub ttl: u64,
}

/// What an atomic operation tells its caller.
pub enum ReplyView {
    /// Nothing.
    Nil,
    /// A return code.
    Int(i64),
    /// An item, in UTF-8.
    Bulk(Seq<u8>),
}

/// An atomic operation that a worker asks of the store.
pub enum OperationView {
    Reserve { deadline: u64 },
    ReserveLost { now: u64, timeout: usize },
    Acknowledge { item: Seq<char>, error: Seq<char>, ttl: u64 },
    Requeue { max_requeues: usize, global_max_requeues: usize, item: Seq<char>, offset: u64 },
    Release { item: Seq<char> },
    Heartbeat { item: Seq<char>, deadline: u64 },
}

/// The time `timeout` seconds after `now`, or the last time there is.
pub open spec fn deadline_after(now: u64, timeout: usize) -> u64 {
    if now + timeout * 1_000_000 > u64::MAX {
        u64::MAX
    } else {
        (now + timeout * 1_000_000) as u64
    }
}

/// What an operation that hands out an item tells its caller.
pub open spec fn item_reply(item: Option<Seq<char>>) -> ReplyView {
    match item {
        Some(item) => ReplyView::Bulk(vstd::utf8::encode_utf8(item)),
        None => ReplyView::Nil,
    }
}

/// What an operation that succeeds or not tells its caller.
pub open spec fn code_reply(done: bool) -> ReplyView {
    if done {
        ReplyView::Int(1)
    } else {
        ReplyView::Int(0)
    }
}

/// Whether a reservation is of `item`.
pub open spec fn leases_item(item: Seq<char>) -> spec_fn(LeaseView) -> bool {
    |lease: LeaseView| lease.item == item
}

/// Whether a reservation is lost at `now`: its deadline has passed, and its
/// item is not among `completed`.
pub open spec fn lost_at(completed: Set<Seq<char>>, now: u64) -> spec_fn(LeaseView) -> bool {
    |lease: LeaseView| lease.deadline <= now && !completed.contains(lease.item)
}

/// Whether an item is not among `processed`.
pub open spec fn not_among(processed: Set<Seq<char>>) -> spec_fn(Seq<char>) -> bool {
    |item: Seq<char>| !processed.contains(item)
}

/// The items of the reservations in `audit` that `worker` made, in order.
pub open spec fn reserved_by(audit: Seq<(Seq<char>, Seq<char>)>, worker: Seq<char>) -> Seq<
    Seq<char>,
>
    decreases audit.len(),
{
    if audit.len() == 0 {
        Seq::empty()
    } else if audit.last().0 == worker {
        reserved_by(audit.drop_last(), worker).push(audit.last().1)
    } else {
        reserved_by(audit.drop_last(), worker)
    }
}

/// The state of one build.
pub struct StoreState {
    /// `setup`, `ready` or `finished`; `None` while no master is elected.
    pub master_status: Option<Seq<char>>,
    /// The number of items of the build.
    pub total: Option<usize>,
    /// The workers that have registered.
    pub workers: Set<Seq<char>>,
    /// The items that wait, the next one to hand out last.
    pub queue: Seq<Seq<char>>,
    /// The reservations, in the order in which they were made.
    pub leases: Seq<LeaseView>,
    /// The items that have been acknowledged.
    pub processed: Set<Seq<char>>,
    /// The items that are never handed out again.
    pub completed: Set<Seq<char>>,
    /// The requeues made: the item of each, in order.
    pub requeues: Seq<Seq<char>>,
    /// The error each item was last acknowledged with.
    pub error_reports: Map<Seq<char>, ErrorReportView>,
    /// Each reservation made, as worker and item, in order.
    pub audit: Seq<(Seq<char>, Seq<char>)>,
}

impl StoreState {
    /// The state of a build that nobody has touched.
    pub open spec fn empty() -> StoreState {
        StoreState {
            master_status: None,
            total: None,
            workers: Set::empty(),
            queue: Seq::empty(),
            leases: Seq::empty(),
            processed: Set::empty(),
            completed: Set::empty(),
            requeues: Seq::empty(),
            error_reports: Map::empty(),
            audit: Seq::empty(),
        }
    }

    /// The index of the reservation of `item`, or `-1`.
    pub open spec fn lease_index(self, item: Seq<char>) -> int {
        first_index(self.leases, leases_item(item))
    }

    /// Whether `item` is reserved.
    pub open spec fn is_running(self, item: Seq<char>) -> bool {
        self.lease_index(item) >= 0
    }

    /// The worker that holds `item`.
    pub open spec fn owner(self, item: Seq<char>) -> Option<Seq<char>> {
        if self.is_running(item) {
            Some(self.leases[self.lease_index(item)].owner)
        } else {
            None
        }
    }

    /// The time at which the reservation of `item` is lost.
    pub open spec fn deadline(self, item: Seq<char>) -> Option<u64> {
        if self.is_running(item) {
            Some(self.leases[self.lease_index(item)].deadline)
        } else {
            None
        }
    }

    /// The reserved items, each with its deadline.
    pub open spec fn running(self) -> Map<Seq<char>, u64> {
        Map::new(|item: Seq<char>| self.is_running(item), |item: Seq<char>| self.deadline(item)->0)
    }

    /// The reserved items, each with the worker that holds it.
    pub open spec fn owners(self) -> Map<Seq<char>, Seq<char>> {
        Map::new(|item: Seq<char>| self.is_running(item), |item: Seq<char>| self.owner(item)->0)
    }

    /// The items that `worker` has reserved, in order.
    pub open spec fn worker_queue(self, worker: Seq<char>) -> Seq<Seq<char>> {
        reserved_by(self.audit, worker)
    }

    /// How many items are still to do: those that wait and those that are
    /// reserved.
    pub open spec fn len(self) -> nat {
        self.queue.len() + self.leases.len()
    }

    /// How often `item` has been requeued.
    pub open spec fn requeue_count(self, item: Seq<char>) -> nat {
        self.requeues.to_multiset().count(item)
    }

    /// How often any item has been requeued: the counts of all items added
    /// up.
    pub open spec fn requeue_total(self) -> nat {
        self.requeues.to_multiset().len()
    }

    /// No item is reserved twice.
    pub open spec fn wf(self) -> bool {
        forall|i: int, j: int|
            0 <= i < j < self.leases.len() ==> (#[trigger] self.leases[i]).item != (
            #[trigger] self.leases[j]).item
    }

    /// The state with `item` reserved by `worker` until `deadline`, in place
    /// of any reservation of it there was.
    pub open spec fn with_lease(self, item: Seq<char>, worker: Seq<char>, deadline: u64) -> StoreState {
        let lease = LeaseView { item, owner: worker, deadline };
        let at = self.lease_index(item);
        StoreState {
            leases: if at >= 0 {
                self.leases.update(at, lease)
            } else {
                self.leases.push(lease)
            },
            ..self
        }
    }

    /// The state without a reservation of `item`.
    pub open spec fn without_lease(self, item: Seq<char>) -> StoreState {
        let at = self.lease_index(item);
        StoreState {
            leases: if at >= 0 {
                self.leases.remove(at)
            } else {
                self.leases
            },
            ..self
        }
    }

    /// Election: the first caller finds no master status, sets it to `setup`
    /// and is the master.
    pub open spec fn claim_master(self) -> (StoreState, bool) {
        if self.master_status is None {
            (StoreState { master_status: Some(super::STATUS_SETUP@), ..self }, true)
        } else {
            (self, false)
        }
    }

    /// The master's one transaction: the items are pushed at the head of the
    /// queue one by one, so that the first of `items` is handed out first; the
    /// total is set; the master status becomes `ready`.
    pub open spec fn publish(self, items: Seq<Seq<char>>) -> StoreState {
        StoreState {
            queue: items.reverse() + self.queue,
            total: Some(items.len() as usize),
            master_status: Some(super::STATUS_READY@),
            ..self
        }
    }

    /// The state with `worker` registered.
    pub open spec fn register_worker(self, worker: Seq<char>) -> StoreState {
        StoreState { workers: self.workers.insert(worker), ..self }
    }

    /// The index in the queue of the item that the next `reserve` hands out:
    /// the last one that has not been acknowledged. `-1` where there is none.
    pub open spec fn next_reservable(self) -> int {
        last_index(self.queue, not_among(self.processed))
    }

    /// Takes the item at the tail of the queue and reserves it for `worker`
    /// until `deadline`. Items at the tail that have been acknowledged before
    /// are dropped on the way.
    pub open spec fn reserve(self, worker: Seq<char>, deadline: u64) -> (StoreState, Option<Seq<char>>) {
        let at = self.next_reservable();
        if at < 0 {
            (StoreState { queue: Seq::empty(), ..self }, None)
        } else {
            let item = self.queue[at];
            (
                StoreState {
                    queue: self.queue.take(at),
                    audit: self.audit.push((worker, item)),
                    ..self.with_lease(item, worker, deadline)
                },
                Some(item),
            )
        }
    }

    /// The index of the first reservation that is lost at `now`, or `-1`.
    pub open spec fn first_lost(self, now: u64) -> int {
        first_index(self.leases, lost_at(self.completed, now))
    }

    /// Hands the first lost reservation over to `worker`, until `timeout`
    /// seconds after `now`. The item does not pass through the queue.
    pub open spec fn reserve_lost(self, worker: Seq<char>, now: u64, timeout: usize) -> (
        StoreState,
        Option<Seq<char>>,
    ) {
        let at = self.first_lost(now);
        if at < 0 {
            (self, None)
        } else {
            let item = self.leases[at].item;
            let lease = LeaseView { item, owner: worker, deadline: deadline_after(now, timeout) };
            (
                StoreState {
                    leases: self.leases.update(at, lease),
                    audit: self.audit.push((worker, item)),
                    ..self
                },
                Some(item),
            )
        }
    }

    /// Ends the reservation of `item` that `worker` holds: the item is
    /// processed, and a non-empty `error` is kept for `ttl` seconds. Fails
    /// where `worker` does not hold `item`.
    pub open spec fn acknowledge(
        self,
        worker: Seq<char>,
        item: Seq<char>,
        error: Seq<char>,
        ttl: u64,
    ) -> (StoreState, bool) {
        if self.owner(item) != Some(worker) {
            (self, false)
        } else {
            (
                StoreState {
                    processed: self.processed.insert(item),
                    error_reports: if error.len() > 0 {
                        self.error_reports.insert(item, ErrorReportView { payload: error, ttl })
                    } else {
                        self.error_reports
                    },
                    ..self.without_lease(item)
                },
                true,
            )
        }
    }

    /// Where `item` goes into a queue of `len` items when it is requeued:
    /// `offset` items from the tail, or at the head of a shorter queue.
    pub open spec fn requeue_position(len: nat, offset: u64) -> int {
        if len > offset {
            len - offset
        } else {
            0
        }
    }

    /// Puts `item` back into the queue and counts the requeue, unless the
    /// item has been requeued `max_requeues` times or `global_max_requeues`
    /// requeues have been made in all.
    pub open spec fn requeue(
        self,
        max_requeues: usize,
        global_max_requeues: usize,
        item: Seq<char>,
        offset: u64,
    ) -> (StoreState, bool) {
        if self.requeue_count(item) >= max_requeues || self.requeue_total()
            >= global_max_requeues {
            (self, false)
        } else {
            (
                StoreState {
                    requeues: self.requeues.push(item),
                    queue: self.queue.insert(
                        Self::requeue_position(self.queue.len(), offset),
                        item,
                    ),
                    ..self.without_lease(item)
                },
                true,
            )
        }
    }

    /// Gives a reserved `item` up: it goes back to the tail of the queue, and
    /// no requeue is counted.
    pub open spec fn release(self, item: Seq<char>) -> (StoreState, bool) {
        if !self.is_running(item) {
            (self, false)
        } else {
            (StoreState { queue: self.queue.push(item), ..self.without_lease(item) }, true)
        }
    }

    /// Moves the deadline of `item` to `deadline`, where `worker` holds it.
    pub open spec fn heartbeat(self, worker: Seq<char>, item: Seq<char>, deadline: u64) -> (
        StoreState,
        bool,
    ) {
        if self.owner(item) != Some(worker) {
            (self, false)
        } else {
            (self.with_lease(item, worker, deadline), true)
        }
    }

    /// The state after `worker` has asked for `operation`, and what it is
    /// told.
    pub open spec fn apply(self, worker: Seq<char>, operation: OperationView) -> (
        StoreState,
        ReplyView,
    ) {
        match operation {
            OperationView::Reserve { deadline } => {
                let (after, item) = self.reserve(worker, deadline);
                (after, item_reply(item))
            },
            OperationView::ReserveLost { now, timeout } => {
                let (after, item) = self.reserve_lost(worker, now, timeout);
                (after, item_reply(item))
            },
            OperationView::Acknowledge { item, error, ttl } => {
                let (after, done) = self.acknowledge(worker, item, error, ttl);
                (after, code_reply(done))
            },
            OperationView::Requeue { max_requeues, global_max_requeues, item, offset } => {
                let (after, done) = self.requeue(max_requeues, global_max_requeues, item, offset);
                (after, code_reply(done))
            },
            OperationView::Release { item } => {
                let (after, done) = self.release(item);
                (after, code_reply(done))
            },
            OperationView::Heartbeat { item, deadline } => {
                let (after, done) = self.heartbeat(worker, item, deadline);
                (after, code_reply(done))
            },
        }
    }
}

} // verus!

//! A store in memory: the state of one build, and the atomic operations
//! computed on it.
use super::operation::{Operation, Reply};
use super::state::{
    code_reply, deadline_after, item_reply, lemma_count_within_len,    leases_item, lemma_first_index_is, lemma_first_index_none, lemma_last_index_is,
    lemma_last_index_none, lost_at, not_among, reserved_by, ErrorReportView, LeaseView,
    StoreState,
};
use super::text::same_text;
use super::views;
use vstd::hash_map::StringHashMap;
use vstd::hash_set::StringHashSet;
use vstd::prelude::*;

verus! {

/// A reservation: `owner` holds `item` until `deadline`.
pub struct Lease {
    pub item: String,
    pub owner: String,
    pub deadline: u64,
}

impl View for Lease {
    type V = LeaseView;

    open spec fn view(&self) -> LeaseView {
        LeaseView { item: self.item@, owner: self.owner@, deadline: self.deadline }
    }
}

/// The error that an item was acknowledged with.
pub struct ErrorReport {
    pub payload: String,
    pub ttl: u64,
}

impl View for ErrorReport {
    type V = ErrorReportView;

    open spec fn view(&self) -> ErrorReportView {
        ErrorReportView { payload: self.payload@, ttl: self.ttl }
    }
}

/// The views of `leases`.
pub open spec fn lease_views(leases: Seq<Lease>) -> Seq<LeaseView> {
    Seq::new(leases.len(), |i: int| leases[i]@)
}

/// The views of the entries of `audit`.
pub open spec fn touch_views(audit: Seq<(String, String)>) -> Seq<(Seq<char>, Seq<char>)> {
    Seq::new(audit.len(), |i: int| (audit[i].0@, audit[i].1@))
}

/// The view of `text`, where there is one.
pub open spec fn option_view(text: Option<String>) -> Option<Seq<char>> {
    match text {
        Some(text) => Some(text@),
        None => None,
    }
}

/// The store of one build.
pub struct Store {
    master_status: Option<String>,
    total: Option<usize>,
    workers: StringHashSet,
    queue: Vec<String>,
    leases: Vec<Lease>,
    processed: StringHashSet,
    completed: StringHashSet,
    requeues: Vec<String>,
    error_reports: StringHashMap<ErrorReport>,
    audit: Vec<(String, String)>,
}

impl View for Store {
    type V = StoreState;

    closed spec fn view(&self) -> StoreState {
        StoreState {
            master_status: option_view(self.master_status),
            total: self.total,
            workers: self.workers@,
            queue: views(self.queue@),
            leases: lease_views(self.leases@),
            processed: self.processed@,
            completed: self.completed@,
            requeues: views(self.requeues@),
            error_reports: self.error_reports@.map_values(|report: ErrorReport| report@),
            audit: touch_views(self.audit@),
        }
    }
}

/// The time `timeout` seconds after `now`, or the last time there is.
pub fn lease_deadline(now: u64, timeout: usize) -> (deadline: u64)
    ensures
        deadline == deadline_after(now, timeout),
{
    let wide: u128 = now as u128 + (timeout as u128) * 1_000_000;
    if wide > u64::MAX as u128 {
        u64::MAX
    } else {
        wide as u64
    }
}

impl Store {
    /// The store of a build that nobody has touched.
    pub fn new() -> (store: Self)
        ensures
            store@ == StoreState::empty(),
    {
        let store = Store {
            master_status: None,
            total: None,
            workers: StringHashSet::new(),
            queue: Vec::new(),
            leases: Vec::new(),
            processed: StringHashSet::new(),
            completed: StringHashSet::new(),
            requeues: Vec::new(),
            error_reports: StringHashMap::new(),
            audit: Vec::new(),
        };
        proof {
            assert(store@.queue =~= Seq::empty());
            assert(store@.requeues =~= Seq::empty());
            assert(store@.leases =~= Seq::empty());
            assert(store@.audit =~= Seq::empty());
            assert(store@.error_reports =~= Map::empty());
        }
        store
    }

    fn find_lease(&self, item: &str) -> (at: Option<usize>)
        ensures
            match at {
                Some(k) => k == self@.lease_index(item@) && k < self.leases@.len(),
                None => self@.lease_index(item@) == -1,
            },
    {
        let mut i: usize = 0;
        while i < self.leases.len()
            invariant
                i <= self.leases@.len(),
                forall|j: int| 0 <= j < i ==> self.leases@[j].item@ != item@,
            decreases self.leases@.len() - i,
        {
            if same_text(self.leases[i].item.as_str(), item) {
                proof {
                    lemma_first_index_is(lease_views(self.leases@), leases_item(item@), i as int);
                }
                return Some(i);
            }
            i += 1;
        }
        proof {
            lemma_first_index_none(lease_views(self.leases@), leases_item(item@));
        }
        None
    }

    fn set_lease(&mut self, item: &str, worker: &str, deadline: u64)
        ensures
            final(self)@ == old(self)@.with_lease(item@, worker@, deadline),
    {
        let lease = Lease { item: String::from_str(item), owner: String::from_str(worker), deadline };
        match self.find_lease(item) {
            Some(at) => {
                self.leases.set(at, lease);
                assert(self@.leases =~= old(self)@.leases.update(at as int, lease@));
            },
            None => {
                self.leases.push(lease);
                assert(self@.leases =~= old(self)@.leases.push(lease@));
            },
        }
    }

    fn remove_lease(&mut self, item: &str)
        ensures
            final(self)@ == old(self)@.without_lease(item@),
    {
        match self.find_lease(item) {
            Some(at) => {
                self.leases.remove(at);
                assert(self@.leases =~= old(self)@.leases.remove(at as int));
            },
            None => {},
        }
    }

    fn note(&mut self, worker: &str, item: &str)
        ensures
            final(self)@ == (StoreState {
                audit: old(self)@.audit.push((worker@, item@)),
                ..old(self)@
            }),
    {
        self.audit.push((String::from_str(worker), String::from_str(item)));
        assert(self@.audit =~= old(self)@.audit.push((worker@, item@)));
    }

    /// The master status.
    pub fn master_status(&self) -> (status: Option<String>)
        ensures
            option_view(status) == self@.master_status,
    {
        match &self.master_status {
            Some(status) => Some(status.clone()),
            None => None,
        }
    }

    /// Sets the master status to `status`, whatever it was.
    pub fn set_master_status(&mut self, status: &str)
        ensures
            final(self)@ == (StoreState { master_status: Some(status@), ..old(self)@ }),
    {
        self.master_status = Some(String::from_str(status));
    }

    /// The number of items of the build, once the master has set it.
    pub fn total(&self) -> (total: Option<usize>)
        ensures
            total == self@.total,
    {
        self.total
    }

    /// The number of items that wait.
    pub fn queue_len(&self) -> (len: usize)
        ensures
            len == self@.queue.len(),
    {
        self.queue.len()
    }

    /// The number of items that are reserved.
    pub fn running_len(&self) -> (len: usize)
        ensures
            len == self@.leases.len(),
    {
        self.leases.len()
    }

    /// The items that wait, the next one to hand out last.
    pub fn queued(&self) -> (items: Vec<String>)
        ensures
            views(items@) == self@.queue,
    {
        let mut items: Vec<String> = Vec::new();
        let mut i: usize = 0;
        while i < self.queue.len()
            invariant
                i <= self.queue@.len(),
                items@.len() == i,
                forall|j: int| 0 <= j < i ==> items@[j]@ == self.queue@[j]@,
            decreases self.queue@.len() - i,
        {
            items.push(self.queue[i].clone());
            i += 1;
        }
        assert(views(items@) =~= views(self.queue@));
        items
    }

    /// The worker that holds `item`.
    pub fn owner_of(&self, item: &str) -> (owner: Option<String>)
        ensures
            option_view(owner) == self@.owner(item@),
    {
        match self.find_lease(item) {
            Some(at) => Some(self.leases[at].owner.clone()),
            None => None,
        }
    }

    /// The time at which the reservation of `item` is lost.
    pub fn deadline_of(&self, item: &str) -> (deadline: Option<u64>)
        ensures
            deadline == self@.deadline(item@),
    {
        match self.find_lease(item) {
            Some(at) => Some(self.leases[at].deadline),
            None => None,
        }
    }

    /// Whether `item` has been acknowledged.
    pub fn is_processed(&self, item: &str) -> (processed: bool)
        ensures
            processed == self@.processed.contains(item@),
    {
        self.processed.contains(item)
    }

    /// Whether `worker` has registered.
    pub fn is_registered(&self, worker: &str) -> (registered: bool)
        ensures
            registered == self@.workers.contains(worker@),
    {
        self.workers.contains(worker)
    }

    /// How often `item` has been requeued.
    pub fn requeue_count(&self, item: &str) -> (count: usize)
        ensures
            count == self@.requeue_count(item@),
    {
        let mut count: usize = 0;
        let mut i: usize = 0;
        proof {
            lemma_count_within_len(views(self.requeues@).take(0), item@);
        }
        while i < self.requeues.len()
            invariant
                i <= self.requeues@.len(),
                count <= i,
                count == views(self.requeues@).take(i as int).to_multiset().count(item@),
            decreases self.requeues@.len() - i,
        {
            proof {
                let log = views(self.requeues@);
                assert(log.take(i as int + 1) =~= log.take(i as int).push(log[i as int]));
                vstd::seq_lib::to_multiset_build(log.take(i as int), log[i as int]);
            }
            if same_text(self.requeues[i].as_str(), item) {
                count += 1;
            }
            i += 1;
        }
        assert(views(self.requeues@).take(i as int) =~= views(self.requeues@));
        count
    }

    /// How often any item has been requeued.
    pub fn requeue_total(&self) -> (count: usize)
        ensures
            count == self@.requeue_total(),
    {
        proof {
            vstd::seq_lib::to_multiset_len(views(self.requeues@));
        }
        self.requeues.len()
    }

    /// The error that `item` was last acknowledged with.
    pub fn error_report(&self, item: &str) -> (payload: Option<String>)
        ensures
            match payload {
                Some(text) => self@.error_reports.contains_key(item@)
                    && self@.error_reports[item@].payload == text@,
                None => !self@.error_reports.contains_key(item@),
            },
    {
        match self.error_reports.get(item) {
            Some(report) => Some(report.payload.clone()),
            None => None,
        }
    }

    /// The items that `worker` has reserved, in order.
    pub fn worker_queue(&self, worker: &str) -> (items: Vec<String>)
        ensures
            views(items@) == self@.worker_queue(worker@),
    {
        let mut items: Vec<String> = Vec::new();
        let mut i: usize = 0;
        assert(touch_views(self.audit@).take(0) =~= Seq::empty());
        assert(views(items@) =~= Seq::empty());
        while i < self.audit.len()
            invariant
                i <= self.audit@.len(),
                views(items@) == reserved_by(touch_views(self.audit@).take(i as int), worker@),
            decreases self.audit@.len() - i,
        {
            let ghost before = views(items@);
            proof {
                let audit = touch_views(self.audit@);
                assert(audit.take(i as int + 1).drop_last() =~= audit.take(i as int));
                assert(audit.take(i as int + 1).last() == audit[i as int]);
            }
            if same_text(self.audit[i].0.as_str(), worker) {
                items.push(self.audit[i].1.clone());
                assert(views(items@) =~= before.push(self.audit@[i as int].1@));
            }
            i += 1;
        }
        assert(touch_views(self.audit@).take(i as int) =~= touch_views(self.audit@));
        items
    }

    /// Marks `item` as completed: a reservation of it is never lost.
    pub fn complete(&mut self, item: &str)
        ensures
            final(self)@ == (StoreState {
                completed: old(self)@.completed.insert(item@),
                ..old(self)@
            }),
    {
        self.completed.insert(String::from_str(item));
    }

    /// Election. `true` tells the caller that it is the master.
    pub fn claim_master(&mut self) -> (won: bool)
        ensures
            (final(self)@, won) == old(self)@.claim_master(),
    {
        if self.master_status.is_none() {
            self.master_status = Some(String::from_str(super::STATUS_SETUP));
            true
        } else {
            false
        }
    }

    /// The master's transaction: populates the queue with `items`, sets the
    /// total and opens the queue.
    pub fn publish(&mut self, items: &Vec<String>)
        ensures
            final(self)@ == old(self)@.publish(views(items@)),
    {
        let mut queue: Vec<String> = Vec::new();
        let mut i: usize = items.len();
        while i > 0
            invariant
                i <= items@.len(),
                queue@.len() == items@.len() - i,
                forall|j: int| 0 <= j < queue@.len() ==> queue@[j]@ == items@[items@.len() - 1 - j]@,
            decreases i,
        {
            i -= 1;
            queue.push(items[i].clone());
        }
        assert(views(queue@) =~= views(items@).reverse());
        let ghost fresh = views(queue@);
        queue.append(&mut self.queue);
        assert(views(queue@) =~= fresh + old(self)@.queue);
        self.queue = queue;
        self.total = Some(items.len());
        self.master_status = Some(String::from_str(super::STATUS_READY));
    }

    /// Registers `worker`.
    pub fn register_worker(&mut self, worker: &str)
        ensures
            final(self)@ == old(self)@.register_worker(worker@),
    {
        self.workers.insert(String::from_str(worker));
    }

    /// The index in the queue of the item that the next `reserve` hands out.
    fn next_reservable(&self) -> (at: Option<usize>)
        ensures
            match at {
                Some(k) => k == self@.next_reservable() && k < self.queue@.len(),
                None => self@.next_reservable() == -1,
            },
    {
        let mut i: usize = self.queue.len();
        while i > 0
            invariant
                i <= self.queue@.len(),
                forall|j: int| i <= j < self.queue@.len() ==> self.processed@.contains(self.queue@[j]@),
            decreases i,
        {
            i -= 1;
            if !self.processed.contains(self.queue[i].as_str()) {
                proof {
                    lemma_last_index_is(views(self.queue@), not_among(self.processed@), i as int);
                }
                return Some(i);
            }
        }
        proof {
            lemma_last_index_none(views(self.queue@), not_among(self.processed@));
        }
        None
    }

    /// Takes the item at the tail of the queue and reserves it for `worker`
    /// until `deadline`.
    pub fn reserve(&mut self, worker: &str, deadline: u64) -> (item: Option<String>)
        ensures
            (final(self)@, option_view(item)) == old(self)@.reserve(worker@, deadline),
    {
        match self.next_reservable() {
            None => {
                self.queue.clear();
                assert(self@.queue =~= Seq::empty());
                None
            },
            Some(at) => {
                let item = self.queue[at].clone();
                self.queue.truncate(at);
                assert(self@.queue =~= old(self)@.queue.take(at as int));
                self.set_lease(item.as_str(), worker, deadline);
                self.note(worker, item.as_str());
                Some(item)
            },
        }
    }

    /// The index of the first reservation that is lost at `now`.
    fn first_lost(&self, now: u64) -> (at: Option<usize>)
        ensures
            match at {
                Some(k) => k == self@.first_lost(now) && k < self.leases@.len(),
                None => self@.first_lost(now) == -1,
            },
    {
        let mut i: usize = 0;
        while i < self.leases.len()
            invariant
                i <= self.leases@.len(),
                forall|j: int|
                    0 <= j < i ==> !(self.leases@[j].deadline <= now && !self.completed@.contains(
                        self.leases@[j].item@,
                    )),
            decreases self.leases@.len() - i,
        {
            if self.leases[i].deadline <= now && !self.completed.contains(
                self.leases[i].item.as_str(),
            ) {
                proof {
                    lemma_first_index_is(
                        lease_views(self.leases@),
                        lost_at(self.completed@, now),
                        i as int,
                    );
                }
                return Some(i);
            }
            i += 1;
        }
        proof {
            lemma_first_index_none(lease_views(self.leases@), lost_at(self.completed@, now));
        }
        None
    }

    /// Hands the first reservation that is lost at `now` over to `worker`,
    /// for `timeout` seconds.
    pub fn reserve_lost(&mut self, worker: &str, now: u64, timeout: usize) -> (item: Option<String>)
        ensures
            (final(self)@, option_view(item)) == old(self)@.reserve_lost(worker@, now, timeout),
    {
        match self.first_lost(now) {
            None => None,
            Some(at) => {
                let item = self.leases[at].item.clone();
                let lease = Lease {
                    item: item.clone(),
                    owner: String::from_str(worker),
                    deadline: lease_deadline(now, timeout),
                };
                self.leases.set(at, lease);
                assert(self@.leases =~= old(self)@.leases.update(at as int, lease@));
                self.note(worker, item.as_str());
                Some(item)
            },
        }
    }

    /// Whether `worker` holds `item`.
    fn holds(&self, worker: &str, item: &str) -> (holds: bool)
        ensures
            holds == (self@.owner(item@) == Some(worker@)),
    {
        match self.find_lease(item) {
            Some(at) => same_text(self.leases[at].owner.as_str(), worker),
            None => false,
        }
    }

    /// Ends the reservation of `item` that `worker` holds. A non-empty
    /// `error` is kept for `ttl` seconds.
    pub fn acknowledge(&mut self, worker: &str, item: &str, error: &str, ttl: u64) -> (done: bool)
        ensures
            (final(self)@, done) == old(self)@.acknowledge(worker@, item@, error@, ttl),
    {
        if !self.holds(worker, item) {
            return false;
        }
        self.remove_lease(item);
        self.processed.insert(String::from_str(item));
        if !error.is_empty() {
            let report = ErrorReport { payload: String::from_str(error), ttl };
            self.error_reports.insert(String::from_str(item), report);
            assert(self@.error_reports =~= old(self)@.error_reports.insert(item@, report@));
        }
        true
    }

    /// Puts `item` back into the queue, `offset` items from its tail, unless
    /// a cap on requeues has been reached.
    pub fn requeue(
        &mut self,
        max_requeues: usize,
        global_max_requeues: usize,
        item: &str,
        offset: u64,
    ) -> (done: bool)
        ensures
            (final(self)@, done) == old(self)@.requeue(
                max_requeues,
                global_max_requeues,
                item@,
                offset,
            ),
    {
        if self.requeue_count(item) >= max_requeues || self.requeue_total()
            >= global_max_requeues {
            return false;
        }
        self.requeues.push(String::from_str(item));
        assert(self@.requeues =~= old(self)@.requeues.push(item@));
        self.remove_lease(item);
        let len = self.queue.len();
        let at: usize = if len as u64 > offset {
            len - offset as usize
        } else {
            0
        };
        self.queue.insert(at, String::from_str(item));
        assert(self@.queue =~= old(self)@.queue.insert(at as int, item@));
        true
    }

    /// Gives a reserved `item` up: it goes back to the tail of the queue.
    pub fn release(&mut self, item: &str) -> (done: bool)
        ensures
            (final(self)@, done) == old(self)@.release(item@),
    {
        if self.find_lease(item).is_none() {
            return false;
        }
        self.remove_lease(item);
        self.queue.push(String::from_str(item));
        assert(self@.queue =~= old(self)@.queue.push(item@));
        true
    }

    /// Moves the deadline of `item` to `deadline`, where `worker` holds it.
    pub fn heartbeat(&mut self, worker: &str, item: &str, deadline: u64) -> (done: bool)
        ensures
            (final(self)@, done) == old(self)@.heartbeat(worker@, item@, deadline),
    {
        if !self.holds(worker, item) {
            return false;
        }
        self.set_lease(item, worker, deadline);
        true
    }

    /// Performs `operation` for `worker`.
    pub fn eval(&mut self, worker: &str, operation: &Operation) -> (reply: Reply)
        ensures
            (final(self)@, reply@) == old(self)@.apply(worker@, operation@),
    {
        match operation {
            Operation::Reserve { deadline } => {
                let item = self.reserve(worker, *deadline);
                item_to_reply(item)
            },
            Operation::ReserveLost { now, timeout } => {
                let item = self.reserve_lost(worker, *now, *timeout);
                item_to_reply(item)
            },
            Operation::Acknowledge { item, error, ttl } => {
                let done = self.acknowledge(worker, item.as_str(), error.as_str(), *ttl);
                code_to_reply(done)
            },
            Operation::Requeue { max_requeues, global_max_requeues, item, offset } => {
                let done = self.requeue(*max_requeues, *global_max_requeues, item.as_str(), *offset);
                code_to_reply(done)
            },
            Operation::Release { item } => {
                let done = self.release(item.as_str());
                code_to_reply(done)
            },
            Operation::Heartbeat { item, deadline } => {
                let done = self.heartbeat(worker, item.as_str(), *deadline);
                code_to_reply(done)
            },
        }
    }
}

fn item_to_reply(item: Option<String>) -> (reply: Reply)
    ensures
        reply@ == item_reply(option_view(item)),
{
    match item {
        Some(item) => Reply::Bulk(item.as_str().as_bytes_vec()),
        None => Reply::Nil,
    }
}

fn code_to_reply(done: bool) -> (reply: Reply)
    ensures
        reply@ == code_reply(done),
{
    if done {
        Reply::Int(1)
    } else {
        Reply::Int(0)
    }
}

} // verus!

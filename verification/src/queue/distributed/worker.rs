//! A worker: it takes part in the election, reserves items one by one, and
//! acknowledges or requeues each.
//!
//! Every exchange with the store comes in two forms. One takes a [`Store`] in
//! memory and performs the operation on it. The other is for a store that is
//! reached over a network: a function that says what to ask, as an
//! [`Operation`], and a function that takes the [`Reply`].
use super::laws::{
    lemma_apply_keeps_wf, lemma_lost_is_recovered, lemma_running, lemma_with_lease,
    requeues_what_is_reserved, run, Step,
};
use super::operation::{Operation, Reply};
use super::state::{
    deadline_after, item_reply, lemma_first_index, lemma_last_index, lost_at, not_among,
    OperationView, ReplyView, StoreState,
};
use super::store::{lease_deadline, Store};
use super::text::utf8_text;
use super::{
    opens, Base, ReservationError, DEFAULT_REQUEUE_OFFSET, ERROR_REPORT_TTL,
};
use crate::queue::{keyed_by_encoding, last_encoded, QueueConfig, TestIdentifier, TestRegistry};
use vstd::hash_set::StringHashSet;
use vstd::prelude::*;

verus! {

/// What a worker gets when it asks for the next item.
#[derive(Debug)]
pub enum Next<T> {
    /// An item, now reserved by the worker.
    Item(T),
    /// Nothing could be reserved, and items are still to do: ask again after
    /// `RESERVE_RETRY_INTERVAL`.
    Retry,
    /// The end: the master is lost, the worker shuts down, or nothing is left
    /// to do.
    Done,
}

/// The encodings of `tests`, in order.
pub open spec fn encodings<T: TestIdentifier>(tests: Seq<T>) -> Seq<Seq<char>> {
    Seq::new(tests.len(), |i: int| tests[i].encoding())
}

/// Whether `reply` holds the item that is encoded as `name`: non-empty UTF-8.
pub open spec fn names(reply: ReplyView, name: Seq<char>) -> bool {
    match reply {
        ReplyView::Bulk(data) => data.len() > 0 && vstd::utf8::valid_utf8(data)
            && vstd::utf8::decode_utf8(data) == name,
        _ => false,
    }
}

/// A reply of the store names the item that was handed out, unless its
/// encoding is empty.
pub proof fn lemma_item_reply_names(item: Option<Seq<char>>, name: Seq<char>)
    ensures
        names(item_reply(item), name) <==> item == Some(name) && name.len() > 0,
{
    if let Some(handed) = item {
        vstd::utf8::encode_utf8_valid_utf8(handed);
        vstd::utf8::encode_utf8_decode_utf8(handed);
        if vstd::utf8::encode_utf8(handed).len() == 0 {
            assert(vstd::utf8::decode_utf8(vstd::utf8::encode_utf8(handed)).len() == 0);
        }
        if handed.len() == 0 {
            assert(vstd::utf8::encode_utf8(handed).len() == 0);
        }
    }
}

/// `uuid::Uuid::new_v4`, written as `Display` writes it: a random identifier
/// of 36 characters.
#[verifier::external_body]
fn random_worker_id() -> (id: String)
    ensures
        id@.len() == 36,
{
    uuid::Uuid::new_v4().to_string()
}

/// A worker of a build.
#[verifier::reject_recursive_types(T)]
pub struct Worker<T: TestIdentifier> {
    base: Base,
    config: QueueConfig,
    worker_id: String,
    shutdown_required: bool,
    reserved_tests: StringHashSet,
    test_registry: TestRegistry<T>,
}

impl<T: TestIdentifier> Worker<T> {
    /// The build and what the worker knows of it.
    pub closed spec fn spec_base(&self) -> Base {
        self.base
    }

    /// The worker's identifier.
    pub closed spec fn id(&self) -> Seq<char> {
        self.worker_id@
    }

    pub closed spec fn spec_config(&self) -> QueueConfig {
        self.config
    }

    /// The encodings of the items that the worker has reserved and neither
    /// acknowledged nor requeued.
    pub closed spec fn reserved(&self) -> Set<Seq<char>> {
        self.reserved_tests@
    }

    /// The items that the worker can decode, each under its encoding.
    pub closed spec fn registry(&self) -> Map<Seq<char>, T> {
        self.test_registry@
    }

    pub closed spec fn spec_is_shutdown_required(&self) -> bool {
        self.shutdown_required
    }

    /// The number of items of the build.
    pub open spec fn spec_total(&self) -> usize {
        match self.spec_base().total {
            Some(total) => total,
            None => 0,
        }
    }

    /// The registry files each item under its encoding. Every worker that
    /// `unstarted` or `new` makes is so, and stays so.
    pub open spec fn wf(&self) -> bool {
        keyed_by_encoding(self.registry())
    }

    /// Whether `self` and `other` differ in nothing but what they have
    /// reserved.
    pub open spec fn same_but_reserved(&self, other: &Self) -> bool {
        &&& self.spec_base() == other.spec_base()
        &&& self.id() == other.id()
        &&& self.spec_config() == other.spec_config()
        &&& self.registry() == other.registry()
        &&& self.spec_is_shutdown_required() == other.spec_is_shutdown_required()
    }

    /// Whether the worker takes `name` for an item when the store hands it
    /// out: it is not empty, and the registry holds it.
    pub open spec fn decodable(&self, name: Option<Seq<char>>) -> bool {
        match name {
            Some(name) => name.len() > 0 && self.registry().contains_key(name),
            None => false,
        }
    }

    /// A worker that has not met the store yet. Without a `worker_id` it gets
    /// a random one.
    pub fn unstarted(
        build_id: String,
        worker_id: Option<String>,
        tests: &[T],
        config: QueueConfig,
    ) -> (worker: Self)
        ensures
            worker.wf(),
            worker.spec_base().build_id == build_id,
            !worker.spec_base().is_master,
            worker.spec_base().total == Some(tests@.len() as usize),
            worker.spec_base().master_wait_timeout == super::DEFAULT_MASTER_WAIT_TIMEOUT,
            worker.spec_config() == config,
            match worker_id {
                Some(id) => worker.id() == id@,
                None => worker.id().len() == 36,
            },
            !worker.spec_is_shutdown_required(),
            worker.reserved() == Set::<Seq<char>>::empty(),
            forall|k: Seq<char>| worker.registry().contains_key(k) <==> last_encoded(tests@, k) >= 0,
            forall|k: Seq<char>| #[trigger]
                worker.registry().contains_key(k) ==> cloned(
                    tests@[last_encoded(tests@, k)],
                    worker.registry()[k],
                ),
    {
        let mut base = Base::new(build_id);
        base.total = Some(tests.len());
        let worker_id = match worker_id {
            Some(id) => id,
            None => random_worker_id(),
        };
        Worker {
            base,
            config,
            worker_id,
            shutdown_required: false,
            reserved_tests: StringHashSet::new(),
            test_registry: TestRegistry::new(tests),
        }
    }

    pub fn base(&self) -> (base: &Base)
        ensures
            *base == self.spec_base(),
    {
        &self.base
    }

    pub fn worker_id(&self) -> (id: &str)
        ensures
            id@ == self.id(),
    {
        self.worker_id.as_str()
    }

    #[verifier::when_used_as_spec(spec_config)]
    pub fn config(&self) -> (config: QueueConfig)
        ensures
            config == self.spec_config(),
    {
        self.config
    }

    /// Sets the milliseconds to wait for the master.
    pub fn set_master_wait_timeout(&mut self, timeout: u64)
        ensures
            final(self).spec_base() == (Base { master_wait_timeout: timeout, ..old(self).spec_base() }),
            final(self).id() == old(self).id(),
            final(self).spec_config() == old(self).spec_config(),
            final(self).registry() == old(self).registry(),
            final(self).reserved() == old(self).reserved(),
            final(self).spec_is_shutdown_required() == old(self).spec_is_shutdown_required(),
    {
        self.base.set_master_wait_timeout(timeout);
    }

    /// Asks the worker to stop: it gets no further item. What it holds is
    /// still its own to acknowledge or requeue.
    pub fn shutdown(&mut self)
        ensures
            final(self).spec_is_shutdown_required(),
            final(self).spec_base() == old(self).spec_base(),
            final(self).id() == old(self).id(),
            final(self).spec_config() == old(self).spec_config(),
            final(self).registry() == old(self).registry(),
            final(self).reserved() == old(self).reserved(),
    {
        self.shutdown_required = true;
    }

    #[verifier::when_used_as_spec(spec_is_shutdown_required)]
    pub fn is_shutdown_required(&self) -> (required: bool)
        ensures
            required == self.spec_is_shutdown_required(),
    {
        self.shutdown_required
    }

    pub fn is_master(&self) -> (master: bool)
        ensures
            master == self.spec_base().is_master,
    {
        self.base.is_master
    }

    /// Whether the worker holds `test`.
    pub fn has_reserved(&self, test: &T) -> (held: bool)
        ensures
            held == self.reserved().contains(test.encoding()),
    {
        let name = test.to_redis_value();
        self.reserved_tests.contains(name.as_str())
    }

    /// The number of items of the build.
    #[verifier::when_used_as_spec(spec_total)]
    pub fn total(&self) -> (total: usize)
        ensures
            total == self.spec_total(),
    {
        match self.base.total {
            Some(total) => total,
            None => 0,
        }
    }

    /// The number of items that are done, as `store` shows it.
    pub fn progress(&self, store: &Store) -> (done: usize)
        ensures
            done == super::progress_of(self.spec_base().total, super::clipped(store@.len())),
    {
        self.base.progress(store)
    }

    /// The number of items in `store` that are still to do.
    pub fn len(&self, store: &Store) -> (len: usize)
        ensures
            len == super::clipped(store@.len()),
    {
        self.base.len(store)
    }

    /// Whether nothing in `store` is left to do.
    pub fn is_empty(&self, store: &Store) -> (empty: bool)
        ensures
            empty == (store@.len() == 0),
    {
        self.base.is_empty(store)
    }

    /// The encodings of `tests`, in order: what the master populates the
    /// queue with.
    pub fn encode_all(tests: &[T]) -> (names: Vec<String>)
        ensures
            super::views(names@) == encodings(tests@),
    {
        let mut names: Vec<String> = Vec::new();
        let mut i: usize = 0;
        while i < tests.len()
            invariant
                i <= tests@.len(),
                names@.len() == i,
                forall|j: int| 0 <= j < i ==> names@[j]@ == tests@[j].encoding(),
            decreases tests@.len() - i,
        {
            names.push(tests[i].to_redis_value());
            i += 1;
        }
        assert(super::views(names@) =~= encodings(tests@));
        names
    }

    /// Takes note of how the election ended: the worker that `won` is the
    /// master.
    pub fn elected(&mut self, won: bool)
        ensures
            final(self).spec_base() == (Base {
                is_master: old(self).spec_base().is_master || won,
                ..old(self).spec_base()
            }),
            final(self).id() == old(self).id(),
            final(self).spec_config() == old(self).spec_config(),
            final(self).registry() == old(self).registry(),
            final(self).reserved() == old(self).reserved(),
            final(self).spec_is_shutdown_required() == old(self).spec_is_shutdown_required(),
    {
        if won {
            self.base.is_master = true;
        }
    }

    /// Takes part in the election. The worker that wins populates the queue
    /// with `tests` and opens it. Every worker registers.
    pub fn push_tests(&mut self, store: &mut Store, tests: &[T])
        ensures
            final(self).spec_base() == (Base {
                is_master: old(self).spec_base().is_master || old(store)@.claim_master().1,
                ..old(self).spec_base()
            }),
            final(self).id() == old(self).id(),
            final(self).spec_config() == old(self).spec_config(),
            final(self).registry() == old(self).registry(),
            final(self).reserved() == old(self).reserved(),
            final(self).spec_is_shutdown_required() == old(self).spec_is_shutdown_required(),
            final(store)@ == (if old(store)@.claim_master().1 {
                old(store)@.claim_master().0.publish(encodings(tests@))
            } else {
                old(store)@
            }).register_worker(old(self).id()),
    {
        let won = store.claim_master();
        self.elected(won);
        if won {
            let names = Self::encode_all(tests);
            store.publish(&names);
        }
        store.register_worker(self.worker_id.as_str());
    }

    /// A worker of the build in `store`, after the election.
    pub fn new(
        store: &mut Store,
        build_id: String,
        worker_id: Option<String>,
        tests: Vec<T>,
        config: QueueConfig,
    ) -> (worker: Self)
        ensures
            worker.wf(),
            worker.spec_base().build_id == build_id,
            worker.spec_base().is_master == old(store)@.claim_master().1,
            worker.spec_base().total == Some(tests@.len() as usize),
            worker.spec_base().master_wait_timeout == super::DEFAULT_MASTER_WAIT_TIMEOUT,
            worker.spec_config() == config,
            match worker_id {
                Some(id) => worker.id() == id@,
                None => worker.id().len() == 36,
            },
            !worker.spec_is_shutdown_required(),
            worker.reserved() == Set::<Seq<char>>::empty(),
            forall|k: Seq<char>| worker.registry().contains_key(k) <==> last_encoded(tests@, k) >= 0,
            forall|k: Seq<char>| #[trigger]
                worker.registry().contains_key(k) ==> cloned(
                    tests@[last_encoded(tests@, k)],
                    worker.registry()[k],
                ),
            final(store)@ == (if old(store)@.claim_master().1 {
                old(store)@.claim_master().0.publish(encodings(tests@))
            } else {
                old(store)@
            }).register_worker(worker.id()),
    {
        let mut worker = Self::unstarted(build_id, worker_id, tests.as_slice(), config);
        worker.push_tests(store, tests.as_slice());
        worker
    }

    /// What to ask of the store to take over a reservation that is lost at
    /// `now`.
    pub fn reserve_lost_operation(&self, now: u64) -> (operation: Operation)
        ensures
            operation@ == (OperationView::ReserveLost { now, timeout: self.spec_config().timeout }),
    {
        Operation::ReserveLost { now, timeout: self.config.timeout }
    }

    /// What to ask of the store at `now` to reserve the next item that waits.
    pub fn reserve_operation(&self, now: u64) -> (operation: Operation)
        ensures
            operation@ == (OperationView::Reserve {
                deadline: deadline_after(now, self.spec_config().timeout),
            }),
    {
        Operation::Reserve { deadline: lease_deadline(now, self.config.timeout) }
    }

    /// The item that `reply` hands to the worker, if it hands one and the
    /// worker can decode it.
    pub fn reserved_item(&self, reply: &Reply) -> (item: Option<T>)
        requires
            self.wf(),
        ensures
            match item {
                Some(test) => names(reply@, test.encoding()),
                None => forall|name: Seq<char>|
                    names(reply@, name) ==> !self.registry().contains_key(name),
            },
    {
        match reply {
            Reply::Bulk(data) => {
                if data.len() == 0 {
                    None
                } else {
                    match utf8_text(data.as_slice()) {
                        Some(name) => T::from_redis_value(name, &self.test_registry),
                        None => None,
                    }
                }
            },
            _ => None,
        }
    }

    /// Tries to take over a reservation that is lost at `now`.
    pub fn try_reserve_lost_test(&self, store: &mut Store, now: u64) -> (item: Option<T>)
        requires
            self.wf(),
        ensures
            final(store)@ == old(store)@.reserve_lost(
                self.id(),
                now,
                self.spec_config().timeout,
            ).0,
            self.handed(
                old(store)@.reserve_lost(self.id(), now, self.spec_config().timeout).1,
                item,
            ),
    {
        let operation = self.reserve_lost_operation(now);
        let reply = store.eval(self.worker_id.as_str(), &operation);
        let item = self.reserved_item(&reply);
        proof {
            let handed = old(store)@.reserve_lost(self.id(), now, self.spec_config().timeout).1;
            if item is Some {
                lemma_item_reply_names(handed, item->0.encoding());
            }
            if let Some(name) = handed {
                lemma_item_reply_names(handed, name);
            }
        }
        item
    }

    /// Tries to reserve the next item that waits, at `now`.
    pub fn try_reserve_test(&self, store: &mut Store, now: u64) -> (item: Option<T>)
        requires
            self.wf(),
        ensures
            final(store)@ == old(store)@.reserve(
                self.id(),
                deadline_after(now, self.spec_config().timeout),
            ).0,
            self.handed(
                old(store)@.reserve(self.id(), deadline_after(now, self.spec_config().timeout)).1,
                item,
            ),
    {
        let operation = self.reserve_operation(now);
        let reply = store.eval(self.worker_id.as_str(), &operation);
        let item = self.reserved_item(&reply);
        proof {
            let handed = old(store)@.reserve(
                self.id(),
                deadline_after(now, self.spec_config().timeout),
            ).1;
            if item is Some {
                lemma_item_reply_names(handed, item->0.encoding());
            }
            if let Some(name) = handed {
                lemma_item_reply_names(handed, name);
            }
        }
        item
    }

    /// Whether `item` is what the worker makes of `name`, which the store
    /// handed out: an item is encoded as `name`, and a `name` that the worker
    /// can decode gives an item.
    pub open spec fn handed(&self, name: Option<Seq<char>>, item: Option<T>) -> bool {
        match item {
            Some(test) => name == Some(test.encoding()) && test.encoding().len() > 0,
            None => !self.decodable(name),
        }
    }

    /// Reserves an item at `now`: one whose reservation is lost, and where
    /// that gives none, the next one that waits.
    pub fn reserve(&self, store: &mut Store, now: u64) -> (item: Option<T>)
        requires
            self.wf(),
        ensures
            self.reserved_from(old(store)@, now, final(store)@, item),
    {
        match self.try_reserve_lost_test(store, now) {
            Some(test) => Some(test),
            None => self.try_reserve_test(store, now),
        }
    }

    /// Whether a worker that reserves at `now` from a store in the state
    /// `before` may leave it in the state `after` and come away with `item`:
    /// the item is one whose reservation was lost, or the worker could make
    /// nothing of what was lost and the item is the next one that waited.
    pub open spec fn reserved_from(
        &self,
        before: StoreState,
        now: u64,
        after: StoreState,
        item: Option<T>,
    ) -> bool {
        let timeout = self.spec_config().timeout;
        let (recovered, lost) = before.reserve_lost(self.id(), now, timeout);
        let (taken, fresh) = recovered.reserve(self.id(), deadline_after(now, timeout));
        ||| item is Some && self.handed(lost, item) && after == recovered
        ||| self.handed(lost, None) && self.handed(fresh, item) && after == taken
    }

    /// The two requests that a worker makes of the store when it reserves at
    /// `now`. Where the first gives it an item, it does not make the second.
    pub open spec fn reserve_steps(&self, now: u64) -> Seq<Step> {
        seq![
            Step {
                worker: self.id(),
                operation: OperationView::ReserveLost { now, timeout: self.spec_config().timeout },
            },
            Step {
                worker: self.id(),
                operation: OperationView::Reserve {
                    deadline: deadline_after(now, self.spec_config().timeout),
                },
            },
        ]
    }

    /// A worker that reserves takes the store through requests that requeue
    /// nothing, so that what holds of every run of such requests holds of
    /// what workers do.
    pub proof fn lemma_reserve_is_a_run(
        &self,
        before: StoreState,
        now: u64,
        after: StoreState,
        item: Option<T>,
    )
        requires
            self.reserved_from(before, now, after, item),
        ensures
            after == run(before, self.reserve_steps(now).take(1)) || after == run(
                before,
                self.reserve_steps(now),
            ),
            requeues_what_is_reserved(before, self.reserve_steps(now).take(1)),
            requeues_what_is_reserved(before, self.reserve_steps(now)),
    {
        let steps = self.reserve_steps(now);
        let first = steps.take(1);
        assert(first.drop_last() =~= Seq::<Step>::empty());
        assert(first.last() == steps[0]);
        assert(steps.drop_last() =~= first);
        assert(steps.last() == steps[1]);
        assert(run(before, first.drop_last()) == before);
        assert(requeues_what_is_reserved(before, first.drop_last()));
        assert(requeues_what_is_reserved(before, first));
        assert(requeues_what_is_reserved(before, steps.drop_last()));
    }

    /// The item that a worker comes away with is its own in the store, until
    /// the timeout has passed.
    pub proof fn lemma_reserved_item_is_owned(
        &self,
        before: StoreState,
        now: u64,
        after: StoreState,
        test: T,
    )
        requires
            before.wf(),
            self.reserved_from(before, now, after, Some(test)),
        ensures
            after.wf(),
            after.owner(test.encoding()) == Some(self.id()),
            after.deadline(test.encoding()) == Some(
                deadline_after(now, self.spec_config().timeout),
            ),
    {
        let timeout = self.spec_config().timeout;
        let deadline = deadline_after(now, timeout);
        let name = test.encoding();
        let (recovered, lost) = before.reserve_lost(self.id(), now, timeout);
        lemma_apply_keeps_wf(before, self.id(), OperationView::ReserveLost { now, timeout });
        lemma_apply_keeps_wf(recovered, self.id(), OperationView::Reserve { deadline });
        if after == recovered && lost == Some(name) {
            lemma_first_index(before.leases, lost_at(before.completed, now));
            let at = before.first_lost(now);
            assert(recovered.leases[at].item == name);
            lemma_running(recovered, name);
        } else {
            lemma_last_index(recovered.queue, not_among(recovered.processed));
            lemma_with_lease(recovered, name, self.id(), deadline);
        }
    }

    /// A worker that reserves after the deadline of a reservation has passed
    /// comes away with the item of that reservation, where it is the only one
    /// that is lost and the worker can decode it.
    pub proof fn lemma_reserve_recovers(
        &self,
        before: StoreState,
        now: u64,
        after: StoreState,
        item: Option<T>,
        name: Seq<char>,
    )
        requires
            before.wf(),
            before.is_running(name),
            before.deadline(name)->0 <= now,
            !before.completed.contains(name),
            forall|j: int|
                0 <= j < before.leases.len() && (#[trigger] before.leases[j]).item != name
                    ==> !lost_at(before.completed, now)(before.leases[j]),
            self.decodable(Some(name)),
            self.reserved_from(before, now, after, item),
        ensures
            item matches Some(test) && test.encoding() == name,
            after.owner(name) == Some(self.id()),
            after.queue == before.queue,
    {
        lemma_lost_is_recovered(before, self.id(), now, self.spec_config().timeout, name);
    }

    /// Takes note that the worker holds `test`.
    pub fn keep(&mut self, test: &T)
        ensures
            final(self).same_but_reserved(old(self)),
            final(self).reserved() == old(self).reserved().insert(test.encoding()),
    {
        self.reserved_tests.insert(test.to_redis_value());
    }

    /// Whether a worker in this state gets no further item from a store in
    /// the state `store`: the master is lost, the worker shuts down, or
    /// nothing is left to do.
    pub open spec fn is_done(&self, store: StoreState) -> bool {
        ||| !(self.spec_base().is_master || opens(store.master_status))
        ||| self.spec_is_shutdown_required()
        ||| store.len() == 0
    }

    /// The next item, at `now`.
    pub fn next(&mut self, store: &mut Store, now: u64) -> (next: Next<T>)
        requires
            old(self).wf(),
        ensures
            final(self).same_but_reserved(old(self)),
            old(self).is_done(old(store)@) ==> next is Done && final(store)@ == old(store)@
                && final(self).reserved() == old(self).reserved(),
            !old(self).is_done(old(store)@) ==> match next {
                Next::Item(test) => old(self).reserved_from(
                    old(store)@,
                    now,
                    final(store)@,
                    Some(test),
                ) && final(self).reserved() == old(self).reserved().insert(test.encoding()),
                Next::Retry => old(self).reserved_from(old(store)@, now, final(store)@, None)
                    && final(self).reserved() == old(self).reserved(),
                Next::Done => false,
            },
    {
        if self.base.wait_for_master(store).is_err() {
            return Next::Done;
        }
        if self.shutdown_required || self.base.is_empty(store) {
            return Next::Done;
        }
        match self.reserve(store, now) {
            Some(test) => {
                self.keep(&test);
                Next::Item(test)
            },
            None => Next::Retry,
        }
    }

    /// What to ask of the store to acknowledge `test`, which the worker then
    /// holds no longer. An error where the worker does not hold `test`.
    pub fn acknowledge_operation(&mut self, test: &T) -> (operation: Result<
        Operation,
        ReservationError,
    >)
        ensures
            final(self).same_but_reserved(old(self)),
            final(self).reserved() == old(self).reserved().remove(test.encoding()),
            match operation {
                Ok(operation) => old(self).reserved().contains(test.encoding()) && operation@ == (
                OperationView::Acknowledge {
                    item: test.encoding(),
                    error: Seq::empty(),
                    ttl: ERROR_REPORT_TTL,
                }),
                Err(error) => !old(self).reserved().contains(test.encoding()) && error.message@
                    == "Test '"@ + test.encoding() + "' was not reserved by this worker"@,
            },
    {
        let name = test.to_redis_value();
        if !self.reserved_tests.remove(name.as_str()) {
            let mut message = String::from_str("Test '");
            message.append(name.as_str());
            message.append("' was not reserved by this worker");
            return Err(ReservationError { message });
        }
        Ok(Operation::Acknowledge { item: name, error: String::new(), ttl: ERROR_REPORT_TTL })
    }

    /// Whether `reply` says that the item is acknowledged.
    pub fn acknowledged(reply: &Reply) -> (done: bool)
        ensures
            done == (reply@ == ReplyView::Int(1)),
    {
        match reply {
            Reply::Int(code) => *code == 1,
            _ => false,
        }
    }

    /// Acknowledges `test`, which the worker then holds no longer. An error
    /// where the worker does not hold `test`; `false` where the store finds
    /// that another worker holds it.
    pub fn acknowledge_test(&mut self, store: &mut Store, test: &T) -> (done: Result<
        bool,
        ReservationError,
    >)
        ensures
            final(self).same_but_reserved(old(self)),
            final(self).reserved() == old(self).reserved().remove(test.encoding()),
            match done {
                Ok(done) => old(self).reserved().contains(test.encoding()) && (final(store)@, done)
                    == old(store)@.acknowledge(
                    old(self).id(),
                    test.encoding(),
                    Seq::empty(),
                    ERROR_REPORT_TTL,
                ),
                Err(error) => !old(self).reserved().contains(test.encoding()) && final(store)@
                    == old(store)@ && error.message@ == "Test '"@ + test.encoding()
                    + "' was not reserved by this worker"@,
            },
    {
        match self.acknowledge_operation(test) {
            Ok(operation) => {
                let reply = store.eval(self.worker_id.as_str(), &operation);
                Ok(Self::acknowledged(&reply))
            },
            Err(error) => Err(error),
        }
    }

    /// Acknowledges `test`. `false` where the worker does not hold it.
    pub fn acknowledge(&mut self, store: &mut Store, test: &T) -> (done: bool)
        ensures
            final(self).same_but_reserved(old(self)),
            final(self).reserved() == old(self).reserved().remove(test.encoding()),
            if old(self).reserved().contains(test.encoding()) {
                (final(store)@, done) == old(store)@.acknowledge(
                    old(self).id(),
                    test.encoding(),
                    Seq::empty(),
                    ERROR_REPORT_TTL,
                )
            } else {
                !done && final(store)@ == old(store)@
            },
    {
        match self.acknowledge_test(store, test) {
            Ok(done) => done,
            Err(_) => false,
        }
    }

    /// What to ask of the store to requeue `test`, or `None` where the
    /// configuration allows no requeue at all.
    pub fn requeue_operation(&self, test: &T) -> (operation: Option<Operation>)
        ensures
            match operation {
                Some(operation) => !self.spec_config().requeues_disabled(self.spec_total())
                    && operation@ == (OperationView::Requeue {
                    max_requeues: self.spec_config().max_requeues,
                    global_max_requeues: self.spec_config().global_max_requeues(self.spec_total()),
                    item: test.encoding(),
                    offset: DEFAULT_REQUEUE_OFFSET,
                }),
                None => self.spec_config().requeues_disabled(self.spec_total()),
            },
    {
        let global_max = self.config.global_max_requeues(self.total());
        if self.config.max_requeues == 0 || global_max == 0 {
            return None;
        }
        Some(
            Operation::Requeue {
                max_requeues: self.config.max_requeues,
                global_max_requeues: global_max,
                item: test.to_redis_value(),
                offset: DEFAULT_REQUEUE_OFFSET,
            },
        )
    }

    /// Takes the `reply` to a requeue of `test`: where it says that the item
    /// is requeued, the worker holds it no longer.
    pub fn requeued(&mut self, test: &T, reply: &Reply) -> (done: bool)
        ensures
            done == (reply@ == ReplyView::Int(1)),
            final(self).same_but_reserved(old(self)),
            final(self).reserved() == (if done {
                old(self).reserved().remove(test.encoding())
            } else {
                old(self).reserved()
            }),
    {
        let done = match reply {
            Reply::Int(code) => *code == 1,
            _ => false,
        };
        if done {
            let name = test.to_redis_value();
            self.reserved_tests.remove(name.as_str());
        }
        done
    }

    /// Requeues `test`, which failed. After `true` the worker holds it no
    /// longer; after `false` it is still the worker's to acknowledge.
    pub fn requeue_test(&mut self, store: &mut Store, test: &T) -> (done: bool)
        ensures
            final(self).same_but_reserved(old(self)),
            final(self).reserved() == (if done {
                old(self).reserved().remove(test.encoding())
            } else {
                old(self).reserved()
            }),
            if old(self).spec_config().requeues_disabled(old(self).spec_total()) {
                !done && final(store)@ == old(store)@
            } else {
                (final(store)@, done) == old(store)@.requeue(
                    old(self).spec_config().max_requeues,
                    old(self).spec_config().global_max_requeues(old(self).spec_total()),
                    test.encoding(),
                    DEFAULT_REQUEUE_OFFSET,
                )
            },
    {
        match self.requeue_operation(test) {
            Some(operation) => {
                let reply = store.eval(self.worker_id.as_str(), &operation);
                self.requeued(test, &reply)
            },
            None => false,
        }
    }

    /// Requeues `test`, which failed.
    pub fn requeue(&mut self, store: &mut Store, test: &T) -> (done: bool)
        ensures
            final(self).same_but_reserved(old(self)),
            final(self).reserved() == (if done {
                old(self).reserved().remove(test.encoding())
            } else {
                old(self).reserved()
            }),
            if old(self).spec_config().requeues_disabled(old(self).spec_total()) {
                !done && final(store)@ == old(store)@
            } else {
                (final(store)@, done) == old(store)@.requeue(
                    old(self).spec_config().max_requeues,
                    old(self).spec_config().global_max_requeues(old(self).spec_total()),
                    test.encoding(),
                    DEFAULT_REQUEUE_OFFSET,
                )
            },
    {
        self.requeue_test(store, test)
    }
}

} // verus!

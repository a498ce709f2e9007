//! A queue in memory, for one consumer.
use super::{Queue, QueueConfig, TestIdentifier};
use std::collections::VecDeque;
use vstd::hash_map::StringHashMap;
use vstd::prelude::*;

verus! {

/// Holds the items in memory and hands them out in order. A requeued item is
/// the next one to be handed out.
#[verifier::reject_recursive_types(T)]
pub struct StaticQueue<T: TestIdentifier> {
    queue: VecDeque<T>,
    progress: usize,
    total: usize,
    config: QueueConfig,
    requeues: StringHashMap<usize>,
    global_requeue_count: usize,
}

impl<T: TestIdentifier> StaticQueue<T> {
    /// The items that wait, the next one first.
    pub closed spec fn pending(&self) -> Seq<T> {
        self.queue@
    }

    /// The number of items handed out.
    pub closed spec fn spec_progress(&self) -> usize {
        self.progress
    }

    /// The number of items the queue was made with.
    pub closed spec fn spec_total(&self) -> usize {
        self.total
    }

    pub closed spec fn spec_config(&self) -> QueueConfig {
        self.config
    }

    /// How often each item has been requeued, by its encoding.
    pub closed spec fn requeue_counts(&self) -> Map<Seq<char>, usize> {
        self.requeues@
    }

    /// How often any item has been requeued.
    pub closed spec fn spec_global_requeue_count(&self) -> usize {
        self.global_requeue_count
    }

    /// How often the item encoded as `name` has been requeued.
    pub open spec fn requeue_count(&self, name: Seq<char>) -> usize {
        if self.requeue_counts().contains_key(name) {
            self.requeue_counts()[name]
        } else {
            0
        }
    }

    /// The number of requeues allowed in all.
    pub open spec fn spec_global_max_requeues(&self) -> usize {
        self.spec_config().global_max_requeues(self.spec_total())
    }

    /// Whether the item encoded as `name` may be requeued: neither its own
    /// count nor the count of all requeues has reached its cap.
    pub open spec fn spec_should_requeue(&self, name: Seq<char>) -> bool {
        &&& self.requeue_count(name) < self.spec_config().max_requeues
        &&& self.spec_global_requeue_count() < self.spec_global_max_requeues()
    }

    /// Whether no cap has been passed.
    pub open spec fn within_caps(&self) -> bool {
        &&& forall|name: Seq<char>| self.requeue_count(name) <= self.spec_config().max_requeues
        &&& self.spec_global_requeue_count() <= self.spec_global_max_requeues()
    }

    /// A queue of `tests`, in their order.
    pub fn new(tests: Vec<T>, config: QueueConfig) -> (queue: Self)
        ensures
            queue.pending() == tests@,
            queue.spec_progress() == 0,
            queue.spec_total() == tests@.len(),
            queue.spec_config() == config,
            queue.requeue_counts() == Map::<Seq<char>, usize>::empty(),
            queue.spec_global_requeue_count() == 0,
            queue.within_caps(),
    {
        let total = tests.len();
        let mut rest = tests;
        let mut queue: VecDeque<T> = VecDeque::new();
        while rest.len() > 0
            invariant
                rest@.len() <= tests@.len(),
                rest@ + queue@ == tests@,
            decreases rest@.len(),
        {
            let ghost before = rest@;
            let ghost moved = queue@;
            match rest.pop() {
                Some(test) => {
                    queue.push_front(test);
                    assert(rest@ + queue@ =~= before + moved);
                },
                None => {},
            }
        }
        assert(queue@ =~= tests@);
        StaticQueue {
            queue,
            progress: 0,
            total,
            config,
            requeues: StringHashMap::new(),
            global_requeue_count: 0,
        }
    }

    /// The number of requeues allowed in all: the tolerance times the total,
    /// rounded up.
    pub fn global_max_requeues(&self) -> (max: usize)
        ensures
            max == self.spec_global_max_requeues(),
    {
        self.config.global_max_requeues(self.total)
    }

    /// How often `test` has been requeued.
    pub fn requeues(&self, test: &T) -> (count: usize)
        ensures
            count == self.requeue_count(test.encoding()),
    {
        let name = test.to_redis_value();
        match self.requeues.get(name.as_str()) {
            Some(count) => *count,
            None => 0,
        }
    }

    /// Whether `test` may be requeued.
    pub fn should_requeue(&self, test: &T) -> (allowed: bool)
        ensures
            allowed == self.spec_should_requeue(test.encoding()),
    {
        if self.config.max_requeues == 0 || self.global_max_requeues() == 0 {
            return false;
        }
        self.requeues(test) < self.config.max_requeues && self.global_requeue_count
            < self.global_max_requeues()
    }
}

impl<T: TestIdentifier> Queue<T> for StaticQueue<T> {
    fn total(&self) -> (total: usize)
        ensures
            total == self.spec_total(),
    {
        self.total
    }

    fn progress(&mut self) -> (done: usize)
        ensures
            done == old(self).spec_progress(),
            *final(self) == *old(self),
    {
        self.progress
    }

    fn len(&mut self) -> (len: usize)
        ensures
            len == old(self).pending().len(),
            *final(self) == *old(self),
    {
        self.queue.len()
    }

    fn is_empty(&mut self) -> (empty: bool)
        ensures
            empty == (old(self).pending().len() == 0),
            *final(self) == *old(self),
    {
        self.queue.len() == 0
    }

    /// The item at the head of the queue. It counts as done from then on.
    fn next(&mut self) -> (next: Option<T>)
        ensures
            final(self).spec_total() == old(self).spec_total(),
            final(self).spec_config() == old(self).spec_config(),
            final(self).requeue_counts() == old(self).requeue_counts(),
            final(self).spec_global_requeue_count() == old(self).spec_global_requeue_count(),
            match next {
                Some(test) => {
                    &&& old(self).pending().len() > 0
                    &&& test == old(self).pending()[0]
                    &&& final(self).pending() == old(self).pending().skip(1)
                    &&& final(self).spec_progress() == (if old(self).spec_progress()
                        < usize::MAX {
                        (old(self).spec_progress() + 1) as usize
                    } else {
                        usize::MAX
                    })
                },
                None => {
                    &&& old(self).pending().len() == 0
                    &&& final(self).pending() == old(self).pending()
                    &&& final(self).spec_progress() == old(self).spec_progress()
                },
            },
    {
        match self.queue.pop_front() {
            Some(test) => {
                if self.progress < usize::MAX {
                    self.progress = self.progress + 1;
                }
                assert(self.queue@ =~= old(self).queue@.skip(1));
                Some(test)
            },
            None => None,
        }
    }

    /// Always `true`: what was handed out is done.
    fn acknowledge(&mut self, test: &T) -> (done: bool)
        ensures
            done,
            *final(self) == *old(self),
    {
        true
    }

    /// Puts a clone of `test` at the head of the queue, unless a cap on
    /// requeues has been reached.
    fn requeue(&mut self, test: &T) -> (done: bool)
        ensures
            done == old(self).spec_should_requeue(test.encoding()),
            final(self).spec_total() == old(self).spec_total(),
            final(self).spec_config() == old(self).spec_config(),
            final(self).spec_progress() == old(self).spec_progress(),
            old(self).within_caps() ==> final(self).within_caps(),
            if done {
                &&& final(self).pending().len() == old(self).pending().len() + 1
                &&& cloned(*test, final(self).pending()[0])
                &&& final(self).pending()[0].encoding() == test.encoding()
                &&& final(self).pending().skip(1) == old(self).pending()
                &&& final(self).requeue_counts() == old(self).requeue_counts().insert(
                    test.encoding(),
                    (old(self).requeue_count(test.encoding()) + 1) as usize,
                )
                &&& final(self).spec_global_requeue_count() == old(
                    self,
                ).spec_global_requeue_count() + 1
            } else {
                &&& final(self).pending() == old(self).pending()
                &&& final(self).requeue_counts() == old(self).requeue_counts()
                &&& final(self).spec_global_requeue_count() == old(
                    self,
                ).spec_global_requeue_count()
            },
    {
        if !self.should_requeue(test) {
            return false;
        }
        let count = self.requeues(test);
        self.requeues.insert(test.to_redis_value(), count + 1);
        self.global_requeue_count = self.global_requeue_count + 1;
        let again = test.clone();
        proof {
            T::clone_keeps_encoding(test, &again);
        }
        self.queue.push_front(again);
        assert(self.queue@.skip(1) =~= old(self).queue@);
        proof {
            if old(self).within_caps() {
                assert forall|other: Seq<char>|
                    self.requeue_count(other) <= self.spec_config().max_requeues by {
                    assert(old(self).requeue_count(other) <= self.spec_config().max_requeues);
                }
            }
        }
        true
    }
}

} // verus!

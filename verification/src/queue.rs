//! Queue configuration, test identifiers and the registry that decodes them.
use std::hash::Hash;
use vstd::hash_map::StringHashMap;
use vstd::prelude::*;

pub mod distributed;
pub mod static_queue;

verus! {

/// A non-negative share of the suite, in millionths: `500_000` is one half,
/// `3_000_000` is three times the suite.
#[derive(Debug, Clone, Copy, PartialEq, Eq, Structural)]
pub struct Tolerance {
    pub millionths: u64,
}

/// `ceil(millionths / 1_000_000 * total)`.
pub open spec fn share_ceil(millionths: nat, total: nat) -> nat {
    ((millionths * total + 999_999) / 1_000_000) as nat
}

/// `share_ceil` is the ceiling: it is no less than the exact share, and no
/// `n` that is no less than the exact share lies below it.
pub proof fn lemma_share_ceil_is_ceiling(millionths: nat, total: nat, n: nat)
    ensures
        share_ceil(millionths, total) * 1_000_000 >= millionths * total,
        n * 1_000_000 >= millionths * total ==> share_ceil(millionths, total) <= n,
{
    let p = millionths * total;
    let c = share_ceil(millionths, total);
    assert(c * 1_000_000 >= p && c * 1_000_000 < p + 1_000_000) by {
        vstd::arithmetic::div_mod::lemma_fundamental_div_mod((p + 999_999) as int, 1_000_000);
    }
    if n * 1_000_000 >= p && n < c {
        assert((n + 1) * 1_000_000 <= c * 1_000_000) by (nonlinear_arith)
            requires
                n + 1 <= c,
        ;
    }
}

/// How a queue requeues failed items and when a reservation times out.
#[derive(Debug, Clone, Copy)]
pub struct QueueConfig {
    /// How often one item may be requeued. `0` disables requeues.
    pub max_requeues: usize,
    /// The share of the suite that may be requeued in all. Zero disables
    /// requeues.
    pub requeue_tolerance: Tolerance,
    /// Seconds after which a reservation that was not acknowledged is lost.
    pub timeout: usize,
}

impl Default for QueueConfig {
    fn default() -> (config: Self)
        ensures
            config.max_requeues == 0,
            config.requeue_tolerance.millionths == 0,
            config.timeout == 60,
    {
        QueueConfig { max_requeues: 0, requeue_tolerance: Tolerance { millionths: 0 }, timeout: 60 }
    }
}

impl QueueConfig {
    /// The number of requeues allowed over a suite of `total` items:
    /// `ceil(requeue_tolerance * total)`, or `usize::MAX` where that does not
    /// fit.
    pub open spec fn spec_global_max_requeues(&self, total: usize) -> usize {
        let exact = share_ceil(self.requeue_tolerance.millionths as nat, total as nat);
        if exact > usize::MAX {
            usize::MAX
        } else {
            exact as usize
        }
    }

    /// Whether no item can ever be requeued under this configuration.
    pub open spec fn spec_requeues_disabled(&self, total: usize) -> bool {
        self.max_requeues == 0 || self.spec_global_max_requeues(total) == 0
    }

    #[verifier::when_used_as_spec(spec_global_max_requeues)]
    pub fn global_max_requeues(&self, total: usize) -> (max: usize)
        ensures
            max == self.spec_global_max_requeues(total),
    {
        let share: u128 = self.requeue_tolerance.millionths as u128;
        let count: u128 = total as u128;
        assert(share * count <= 0xffff_ffff_ffff_ffff * 0xffff_ffff_ffff_ffff) by (nonlinear_arith)
            requires
                share <= 0xffff_ffff_ffff_ffff,
                count <= 0xffff_ffff_ffff_ffff,
        ;
        let exact: u128 = (share * count + 999_999) / 1_000_000;
        if exact > usize::MAX as u128 {
            usize::MAX
        } else {
            exact as usize
        }
    }

    #[verifier::when_used_as_spec(spec_requeues_disabled)]
    pub fn requeues_disabled(&self, total: usize) -> (disabled: bool)
        ensures
            disabled == self.spec_requeues_disabled(total),
    {
        self.max_requeues == 0 || self.global_max_requeues(total) == 0
    }
}

/// How one run of a test ended.
#[derive(Debug, Clone, Copy, PartialEq, Eq, Structural)]
pub enum TestResult {
    Passed,
    Failed,
    Skipped,
}

/// A test item: a value with a canonical string encoding, by which the queue
/// stores it and tells items apart.
///
/// Two items with the same encoding are the same item to the queue.
pub trait TestIdentifier: Clone + Hash + Eq {
    /// The canonical encoding.
    spec fn encoding(&self) -> Seq<char>;

    /// A clone is encoded as the value it was cloned from.
    proof fn clone_keeps_encoding(a: &Self, b: &Self)
        requires
            cloned(*a, *b),
        ensures
            a.encoding() == b.encoding(),
    ;

    fn to_redis_value(&self) -> (s: String)
        ensures
            s@ == self.encoding(),
    ;

    /// Decodes `s`. Whatever loads from the registry is handed out, and an
    /// item that is handed out is encoded as `s`, as long as the registry
    /// files each item under its encoding.
    fn from_redis_value(s: &str, registry: &TestRegistry<Self>) -> (t: Option<Self>)
        ensures
            registry@.contains_key(s@) ==> t is Some,
            (forall|k: Seq<char>| #[trigger]
                registry@.contains_key(k) ==> registry@[k].encoding() == k) ==> match t {
                Some(item) => item.encoding() == s@,
                None => true,
            },
    ;
}

/// A string is its own encoding and needs no registry.
impl TestIdentifier for String {
    open spec fn encoding(&self) -> Seq<char> {
        self@
    }

    proof fn clone_keeps_encoding(a: &Self, b: &Self) {
    }

    fn to_redis_value(&self) -> (s: String) {
        self.clone()
    }

    fn from_redis_value(s: &str, _registry: &TestRegistry<Self>) -> (t: Option<Self>)
        ensures
            t matches Some(item) && item@ == s@,
    {
        Some(String::from_str(s))
    }
}

/// The index of the last item of `tests` that is encoded as `key`, or `-1`
/// where there is none.
pub open spec fn last_encoded<T: TestIdentifier>(tests: Seq<T>, key: Seq<char>) -> int
    decreases tests.len(),
{
    if tests.len() == 0 {
        -1
    } else if tests.last().encoding() == key {
        tests.len() - 1
    } else {
        last_encoded(tests.drop_last(), key)
    }
}

/// Whether `registry` files each item under its own encoding.
pub open spec fn keyed_by_encoding<T: TestIdentifier>(registry: Map<Seq<char>, T>) -> bool {
    forall|k: Seq<char>| #[trigger] registry.contains_key(k) ==> registry[k].encoding() == k
}

/// The items of a build, each filed under its encoding.
#[verifier::reject_recursive_types(T)]
pub struct TestRegistry<T> {
    tests: StringHashMap<T>,
}

impl<T> View for TestRegistry<T> {
    type V = Map<Seq<char>, T>;

    closed spec fn view(&self) -> Map<Seq<char>, T> {
        self.tests@
    }
}

impl<T: TestIdentifier> TestRegistry<T> {
    /// Files a clone of each item under its encoding. Of two items with one
    /// encoding the later one stays.
    pub fn new(tests: &[T]) -> (registry: Self)
        ensures
            keyed_by_encoding(registry@),
            forall|k: Seq<char>| registry@.contains_key(k) <==> last_encoded(tests@, k) >= 0,
            forall|k: Seq<char>| #[trigger]
                registry@.contains_key(k) ==> cloned(
                    tests@[last_encoded(tests@, k)],
                    registry@[k],
                ),
    {
        let mut map: StringHashMap<T> = StringHashMap::new();
        let mut i: usize = 0;
        while i < tests.len()
            invariant
                i <= tests@.len(),
                forall|k: Seq<char>| #[trigger]
                    map@.contains_key(k) ==> map@[k].encoding() == k,
                forall|k: Seq<char>|
                    map@.contains_key(k) <==> last_encoded(tests@.take(i as int), k) >= 0,
                forall|k: Seq<char>| #[trigger]
                    map@.contains_key(k) ==> cloned(
                        tests@[last_encoded(tests@.take(i as int), k)],
                        map@[k],
                    ),
            decreases tests@.len() - i,
        {
            let key = tests[i].to_redis_value();
            let item = tests[i].clone();
            proof {
                T::clone_keeps_encoding(&tests[i as int], &item);
                let before = tests@.take(i as int);
                let after = tests@.take(i as int + 1);
                assert(after.drop_last() =~= before);
                assert(after.last() == tests@[i as int]);
                assert forall|k: Seq<char>| last_encoded(after, k) == (if k == key@ {
                    i as int
                } else {
                    last_encoded(before, k)
                }) by {}
            }
            map.insert(key, item);
            i += 1;
        }
        proof {
            assert(tests@.take(i as int) =~= tests@);
        }
        TestRegistry { tests: map }
    }
}

impl<T> TestRegistry<T> {
    /// The item filed under `s`.
    pub fn get(&self, s: &str) -> (item: Option<&T>)
        ensures
            match item {
                Some(t) => self@.contains_key(s@) && *t == self@[s@],
                None => !self@.contains_key(s@),
            },
    {
        self.tests.get(s)
    }
}

/// What a consumer does with a queue: take items one by one, and acknowledge
/// or requeue each.
pub trait Queue<T: TestIdentifier> {
    /// The number of items the queue was made with.
    fn total(&self) -> usize;

    /// The number of items that are done.
    fn progress(&mut self) -> usize;

    /// The number of items that are still to do.
    fn len(&mut self) -> usize;

    /// Whether nothing is left to do.
    fn is_empty(&mut self) -> bool;

    /// The next item, or `None` once the queue has nothing more to give.
    fn next(&mut self) -> Option<T>;

    /// Marks `test` as done.
    fn acknowledge(&mut self, test: &T) -> bool;

    /// Puts a failed `test` back. After `true` the consumer does not
    /// acknowledge it.
    fn requeue(&mut self, test: &T) -> bool;
}

} // verus!

//! What to run to list the tests and to run one, and the count of how the
//! tests of a queue ended.
use super::node_runner::NodeRunner;
use super::types::{line_or_zero, PlaywrightListOutput, PlaywrightSpec, PlaywrightSuite, PlaywrightTest};
use crate::queue::distributed::text::{decimal, push_decimal};
use crate::queue::distributed::views;
use vstd::prelude::*;

verus! {

/// The test that `spec` reports.
pub open spec fn test_of(spec: PlaywrightSpec) -> PlaywrightTest {
    PlaywrightTest { title: spec.title, file: spec.file, line: spec.line, column: spec.column }
}

/// The tests of `specs`, in order.
pub open spec fn tests_of_specs(specs: Seq<PlaywrightSpec>) -> Seq<PlaywrightTest> {
    Seq::new(specs.len(), |i: int| test_of(specs[i]))
}

/// The tests of `suites`: suite by suite, and in each suite spec by spec.
pub open spec fn tests_of(suites: Seq<PlaywrightSuite>) -> Seq<PlaywrightTest>
    decreases suites.len(),
{
    if suites.len() == 0 {
        Seq::empty()
    } else {
        tests_of(suites.drop_last()) + tests_of_specs(suites.last().specs@)
    }
}

/// The tests that `output` reports, in its order.
pub fn collect_tests(output: &PlaywrightListOutput) -> (tests: Vec<PlaywrightTest>)
    ensures
        tests@ == tests_of(output.suites@),
{
    let mut tests: Vec<PlaywrightTest> = Vec::new();
    let mut i: usize = 0;
    assert(output.suites@.take(0) =~= Seq::empty());
    while i < output.suites.len()
        invariant
            i <= output.suites@.len(),
            tests@ == tests_of(output.suites@.take(i as int)),
        decreases output.suites@.len() - i,
    {
        let suite = &output.suites[i];
        let ghost before = tests@;
        let mut j: usize = 0;
        while j < suite.specs.len()
            invariant
                j <= suite.specs@.len(),
                tests@ == before + tests_of_specs(suite.specs@).take(j as int),
            decreases suite.specs@.len() - j,
        {
            let spec = &suite.specs[j];
            tests.push(
                PlaywrightTest {
                    title: spec.title.clone(),
                    file: spec.file.clone(),
                    line: spec.line,
                    column: spec.column,
                },
            );
            assert(tests@ =~= before + tests_of_specs(suite.specs@).take(j as int + 1));
            j += 1;
        }
        proof {
            let next = output.suites@.take(i as int + 1);
            assert(next.drop_last() =~= output.suites@.take(i as int));
            assert(next.last() == output.suites@[i as int]);
            assert(tests_of_specs(suite.specs@).take(j as int) =~= tests_of_specs(suite.specs@));
        }
        i += 1;
    }
    assert(output.suites@.take(i as int) =~= output.suites@);
    tests
}

/// The words after the command that make Playwright list its tests as JSON.
pub fn list_args(runner: &NodeRunner) -> (args: Vec<String>)
    ensures
        views(args@) == runner.spec_args() + seq!["test"@, "--list"@, "--reporter=json"@],
{
    let mut args = runner.args();
    let ghost first = views(args@);
    args.push(String::from_str("test"));
    args.push(String::from_str("--list"));
    args.push(String::from_str("--reporter=json"));
    assert(views(args@) =~= first + seq!["test"@, "--list"@, "--reporter=json"@]);
    args
}

/// Where `test` stands: its file, a colon and its line, `0` where it has no
/// line.
pub open spec fn location(test: PlaywrightTest) -> Seq<char> {
    test.file@ + seq![':'] + decimal(line_or_zero(test.line))
}

/// The words after the command that make Playwright run `test`.
pub fn test_args(runner: &NodeRunner, test: &PlaywrightTest) -> (args: Vec<String>)
    ensures
        views(args@) == runner.spec_args() + seq!["test"@, location(*test)],
{
    let mut args = runner.args();
    let ghost first = views(args@);
    let mut place = test.file.clone();
    place.append(":");
    let line: u32 = match test.line {
        Some(line) => line,
        None => 0,
    };
    push_decimal(&mut place, line as u64);
    proof {
        reveal_strlit(":");
        assert(":"@ =~= seq![':']);
    }
    args.push(String::from_str("test"));
    args.push(place);
    assert(views(args@) =~= first + seq!["test"@, location(*test)]);
    args
}

/// How a run of one test ended.
#[derive(Debug, Clone, Copy, PartialEq, Eq, Structural)]
pub enum RunOutcome {
    /// The test passed.
    Passed,
    /// The test failed.
    Failed,
    /// The test could not be run.
    Errored,
}

/// How the tests of a queue have ended so far.
#[derive(Debug)]
pub struct Tally {
    /// The number of tests run.
    pub test_count: usize,
    /// The number of tests that passed.
    pub passed: usize,
    /// The tests that failed for good.
    pub failed: Vec<PlaywrightTest>,
}

impl Tally {
    pub fn new() -> (tally: Self)
        ensures
            tally.test_count == 0,
            tally.passed == 0,
            tally.failed@ == Seq::<PlaywrightTest>::empty(),
    {
        Tally { test_count: 0, passed: 0, failed: Vec::new() }
    }

    /// Counts a test that is about to run, and gives its number. The count
    /// stops at the greatest number there is.
    pub fn begin(&mut self) -> (number: usize)
        ensures
            number == (if old(self).test_count < usize::MAX {
                (old(self).test_count + 1) as usize
            } else {
                usize::MAX
            }),
            final(self).test_count == number,
            final(self).passed == old(self).passed,
            final(self).failed == old(self).failed,
    {
        if self.test_count < usize::MAX {
            self.test_count = self.test_count + 1;
        }
        self.test_count
    }

    /// Takes note of how the run of `test` ended. A test that passed is
    /// counted, and one that could not be run has failed for good. `true`
    /// where the test failed and is to be requeued if the queue allows it.
    pub fn record(&mut self, test: &PlaywrightTest, outcome: RunOutcome) -> (retry: bool)
        ensures
            retry == (outcome == RunOutcome::Failed),
            final(self).test_count == old(self).test_count,
            final(self).passed == (if outcome == RunOutcome::Passed && old(self).passed
                < usize::MAX {
                (old(self).passed + 1) as usize
            } else {
                old(self).passed
            }),
            final(self).failed@ == (if outcome == RunOutcome::Errored {
                old(self).failed@.push(*test)
            } else {
                old(self).failed@
            }),
    {
        match outcome {
            RunOutcome::Passed => {
                if self.passed < usize::MAX {
                    self.passed = self.passed + 1;
                }
                false
            },
            RunOutcome::Failed => true,
            RunOutcome::Errored => {
                self.failed.push(test.clone());
                false
            },
        }
    }

    /// Takes note of whether the queue took back `test`, which failed: where
    /// it did not, the test has failed for good.
    pub fn requeued(&mut self, test: &PlaywrightTest, requeued: bool)
        ensures
            final(self).test_count == old(self).test_count,
            final(self).passed == old(self).passed,
            final(self).failed@ == (if requeued {
                old(self).failed@
            } else {
                old(self).failed@.push(*test)
            }),
    {
        if !requeued {
            self.failed.push(test.clone());
        }
    }

    /// Whether every test has passed or been requeued.
    pub fn is_success(&self) -> (success: bool)
        ensures
            success == (self.failed@.len() == 0),
    {
        self.failed.len() == 0
    }
}

/// The order in which `rand` leaves `len` items that it shuffles with the
/// generator made of `seed`: for each place, the place that its item came
/// from.
pub uninterp spec fn shuffle_order(len: nat, seed: Seq<u8>) -> Seq<int>;

/// Whether `ordered` holds the items of `tests`, each at the place that
/// `order` gives it.
pub open spec fn ordered_by(
    tests: Seq<PlaywrightTest>,
    order: Seq<int>,
    ordered: Seq<PlaywrightTest>,
) -> bool {
    &&& ordered.len() == tests.len()
    &&& order.len() == tests.len()
    &&& forall|i: int|
        0 <= i < tests.len() ==> 0 <= #[trigger] order[i] < tests.len() && ordered[i]
            == tests[order[i]]
}

/// `rand::seq::SliceRandom::shuffle`, with the `rand::rngs::StdRng` that
/// `rand::SeedableRng::from_seed` makes of `seed`: the same tests in another
/// order, which the number of tests and the seed decide.
#[verifier::external_body]
fn shuffle(tests: &mut Vec<PlaywrightTest>, seed: [u8; 32])
    ensures
        ordered_by(old(tests)@, shuffle_order(old(tests)@.len(), seed@), final(tests)@),
        final(tests)@.to_multiset() == old(tests)@.to_multiset(),
{
    let mut rng = <rand::rngs::StdRng as rand::SeedableRng>::from_seed(seed);
    rand::seq::SliceRandom::shuffle(tests.as_mut_slice(), &mut rng);
}

/// The tests in the order in which they are queued: shuffled by the seed
/// that `seed` stands for, or as they are where there is no seed.
pub fn order_tests(tests: Vec<PlaywrightTest>, seed: Option<&str>) -> (ordered: Vec<PlaywrightTest>)
    ensures
        ordered@.to_multiset() == tests@.to_multiset(),
        match seed {
            Some(text) => ordered_by(
                tests@,
                shuffle_order(tests@.len(), seed_of(vstd::utf8::encode_utf8(text@))),
                ordered@,
            ),
            None => ordered@ == tests@,
        },
{
    let mut ordered = tests;
    match seed {
        Some(text) => {
            shuffle(&mut ordered, string_to_seed(text));
        },
        None => {},
    }
    ordered
}

/// The first 32 bytes of `seed`, and zeros where it has fewer.
pub open spec fn seed_of(seed: Seq<u8>) -> Seq<u8> {
    Seq::new(
        32,
        |i: int|
            if i < seed.len() {
                seed[i]
            } else {
                0u8
            },
    )
}

/// The seed of a random number generator that the text `seed_str` stands for:
/// its first 32 bytes in UTF-8, and zeros where it has fewer.
pub fn string_to_seed(seed_str: &str) -> (seed: [u8; 32])
    ensures
        seed@ == seed_of(vstd::utf8::encode_utf8(seed_str@)),
{
    let mut seed = [0u8; 32];
    let bytes = seed_str.as_bytes();
    let mut i: usize = 0;
    while i < 32 && i < bytes.len()
        invariant
            i <= 32,
            i <= bytes@.len(),
            seed@.len() == 32,
            bytes@ == vstd::utf8::encode_utf8(seed_str@),
            forall|j: int| 0 <= j < i ==> seed@[j] == bytes@[j],
            forall|j: int| i <= j < 32 ==> seed@[j] == 0u8,
        decreases 32 - i,
    {
        seed[i] = bytes[i];
        i += 1;
    }
    assert forall|j: int| 0 <= j < 32 implies seed@[j] == seed_of(bytes@)[j] by {
        if j < i {
            assert(seed@[j] == bytes@[j]);
        }
    }
    assert(seed@ =~= seed_of(bytes@));
    seed
}

} // verus!

//! What Playwright tells of its tests.
use crate::queue::distributed::text::{decimal, push_decimal};
use crate::queue::{TestIdentifier, TestRegistry};
use vstd::prelude::*;

verus! {

/// One test, as the queue holds it.
#[derive(Debug, Hash, PartialEq, Eq)]
pub struct PlaywrightTest {
    pub title: String,
    pub file: String,
    pub line: Option<u32>,
    pub column: Option<u32>,
}

impl Clone for PlaywrightTest {
    fn clone(&self) -> (copy: Self)
        ensures
            copy == *self,
    {
        PlaywrightTest {
            title: self.title.clone(),
            file: self.file.clone(),
            line: self.line,
            column: self.column,
        }
    }
}

/// The line to write for a test at `line`: `0` where it has none.
pub open spec fn line_or_zero(line: Option<u32>) -> nat {
    match line {
        Some(line) => line as nat,
        None => 0,
    }
}

/// A Playwright test is encoded as its file, its line and its title, with
/// colons between them. It is decoded by looking it up in the registry.
impl TestIdentifier for PlaywrightTest {
    open spec fn encoding(&self) -> Seq<char> {
        self.file@ + seq![':'] + decimal(line_or_zero(self.line)) + seq![':'] + self.title@
    }

    proof fn clone_keeps_encoding(a: &Self, b: &Self) {
    }

    fn to_redis_value(&self) -> (s: String) {
        let mut s = self.file.clone();
        s.append(":");
        let line: u32 = match self.line {
            Some(line) => line,
            None => 0,
        };
        push_decimal(&mut s, line as u64);
        s.append(":");
        s.append(self.title.as_str());
        proof {
            reveal_strlit(":");
            assert(":"@ =~= seq![':']);
        }
        s
    }

    fn from_redis_value(s: &str, registry: &TestRegistry<Self>) -> (t: Option<Self>)
        ensures
            t is Some <==> registry@.contains_key(s@),
            t matches Some(item) ==> item == registry@[s@],
    {
        match registry.get(s) {
            Some(item) => Some(item.clone()),
            None => None,
        }
    }
}

/// One test of a suite, as `playwright test --list` reports it.
#[derive(Debug)]
pub struct PlaywrightSpec {
    pub title: String,
    pub file: String,
    pub line: Option<u32>,
    pub column: Option<u32>,
    pub tags: Vec<String>,
    pub ok: bool,
}

/// One suite of the report.
#[derive(Debug)]
pub struct PlaywrightSuite {
    pub title: String,
    pub file: String,
    pub line: u32,
    pub column: u32,
    pub specs: Vec<PlaywrightSpec>,
}

/// The report of `playwright test --list`, as far as the queue reads it.
#[derive(Debug)]
pub struct PlaywrightListOutput {
    pub suites: Vec<PlaywrightSuite>,
}

} // verus!

//! The package managers that can run Playwright.
use vstd::prelude::*;

verus! {

/// A Node.js package manager.
#[derive(Debug, Clone, Copy, PartialEq, Eq, Structural)]
pub enum NodeRunner {
    Pnpm,
    Yarn,
    Npm,
    Npx,
}

/// No package manager is installed.
#[derive(Debug, Clone, Copy, PartialEq, Eq, Structural)]
pub enum NodeRunnerError {
    NoPackageManagerFound,
}

/// The package managers, in the order in which they are looked for.
pub open spec fn spec_search_order() -> Seq<NodeRunner> {
    seq![NodeRunner::Pnpm, NodeRunner::Yarn, NodeRunner::Npm, NodeRunner::Npx]
}

/// The package managers, in the order in which they are looked for.
pub fn search_order() -> (order: [NodeRunner; 4])
    ensures
        order@ == spec_search_order(),
{
    let order = [NodeRunner::Pnpm, NodeRunner::Yarn, NodeRunner::Npm, NodeRunner::Npx];
    assert(order@ =~= spec_search_order());
    order
}

impl NodeRunner {
    pub open spec fn spec_command(&self) -> Seq<char> {
        match self {
            NodeRunner::Pnpm => "pnpm"@,
            NodeRunner::Yarn => "yarn"@,
            NodeRunner::Npm => "npm"@,
            NodeRunner::Npx => "npx"@,
        }
    }

    /// The words that come between the command and what Playwright is to do.
    pub open spec fn spec_args(&self) -> Seq<Seq<char>> {
        match self {
            NodeRunner::Pnpm => seq!["exec"@, "playwright"@],
            NodeRunner::Yarn => seq!["playwright"@],
            NodeRunner::Npm => seq!["exec"@, "--"@, "playwright"@],
            NodeRunner::Npx => seq!["playwright"@],
        }
    }

    /// The command of the package manager.
    pub fn command(&self) -> (command: &'static str)
        ensures
            command@ == self.spec_command(),
    {
        match self {
            NodeRunner::Pnpm => "pnpm",
            NodeRunner::Yarn => "yarn",
            NodeRunner::Npm => "npm",
            NodeRunner::Npx => "npx",
        }
    }

    /// The words with which the package manager runs Playwright.
    pub fn args(&self) -> (args: Vec<String>)
        ensures
            crate::queue::distributed::views(args@) == self.spec_args(),
    {
        let mut args: Vec<String> = Vec::new();
        match self {
            NodeRunner::Pnpm => {
                args.push(String::from_str("exec"));
                args.push(String::from_str("playwright"));
            },
            NodeRunner::Yarn => {
                args.push(String::from_str("playwright"));
            },
            NodeRunner::Npm => {
                args.push(String::from_str("exec"));
                args.push(String::from_str("--"));
                args.push(String::from_str("playwright"));
            },
            NodeRunner::Npx => {
                args.push(String::from_str("playwright"));
            },
        }
        assert(crate::queue::distributed::views(args@) =~= self.spec_args());
        args
    }
}

/// The first package manager in the search order that is installed, where
/// `installed` says of each in that order whether it is.
pub open spec fn first_installed(installed: Seq<bool>) -> Result<NodeRunner, NodeRunnerError> {
    if installed.len() > 0 && installed[0] {
        Ok(NodeRunner::Pnpm)
    } else if installed.len() > 1 && installed[1] {
        Ok(NodeRunner::Yarn)
    } else if installed.len() > 2 && installed[2] {
        Ok(NodeRunner::Npm)
    } else if installed.len() > 3 && installed[3] {
        Ok(NodeRunner::Npx)
    } else {
        Err(NodeRunnerError::NoPackageManagerFound)
    }
}

/// The first package manager in the search order that is installed, where
/// `installed` says of each in that order whether it is.
pub fn select_node_runner(installed: &[bool]) -> (runner: Result<NodeRunner, NodeRunnerError>)
    ensures
        runner == first_installed(installed@),
{
    let order = search_order();
    let mut i: usize = 0;
    while i < 4
        invariant
            i <= 4,
            order@ == spec_search_order(),
            forall|j: int| 0 <= j < i && j < installed@.len() ==> !installed@[j],
        decreases 4 - i,
    {
        if i < installed.len() && installed[i] {
            return Ok(order[i]);
        }
        i += 1;
    }
    Err(NodeRunnerError::NoPackageManagerFound)
}

/// `which::which`: whether an executable named `command` is found on this
/// machine. Nothing is known of the answer beforehand.
#[verifier::external_body]
fn is_installed(command: &str) -> (found: bool) {
    which::which(command).is_ok()
}

/// Looks for the package managers in the search order and picks the first
/// that is installed. An error is returned only after all four have been
/// looked for.
pub fn detect_node_runner() -> (runner: Result<NodeRunner, NodeRunnerError>)
    ensures
        runner matches Ok(found) ==> spec_search_order().contains(found),
{
    let order = search_order();
    let mut i: usize = 0;
    while i < 4
        invariant
            i <= 4,
            order@ == spec_search_order(),
        decreases 4 - i,
    {
        if is_installed(order[i].command()) {
            assert(spec_search_order()[i as int] == order@[i as int]);
            return Ok(order[i]);
        }
        i += 1;
    }
    Err(NodeRunnerError::NoPackageManagerFound)
}

} // verus!

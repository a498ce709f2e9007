//! Playwright tests as queue items, and the commands that list and run them.
pub mod executor;
pub mod node_runner;
pub mod types;

pub use executor::{collect_tests, list_args, order_tests, string_to_seed, test_args, Tally};
pub use node_runner::{detect_node_runner, NodeRunner, NodeRunnerError};
pub use types::{PlaywrightListOutput, PlaywrightSpec, PlaywrightSuite, PlaywrightTest};

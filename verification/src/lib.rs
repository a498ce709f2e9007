//! A work queue that divides a fixed list of test items among the workers of
//! one build.
//!
//! [`queue::static_queue::StaticQueue`] keeps the items in memory.
//! [`queue::distributed`] holds the protocol by which many workers share one
//! store: the state of the store and its atomic operations, the worker and the
//! supervisor.
//! [`playwright`] describes Playwright tests as queue items.
pub mod queue;
pub mod playwright;

pub use queue::{Queue, QueueConfig, TestResult, Tolerance};
pub use queue::static_queue::StaticQueue;
pub use queue::distributed::{Supervisor, Worker};

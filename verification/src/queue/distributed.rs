//! The queue that many workers share through one store.
//!
//! All state of a build lives in the store, under keys that begin with
//! `build:{build_id}:`. Workers and the supervisor hold no shared state of
//! their own: they ask the store for one atomic operation at a time.
use store::{option_view, Store};
use text::same_text;
use vstd::prelude::*;

pub mod laws;
pub mod operation;
pub mod scripts;
pub mod state;
pub mod store;
pub mod supervisor;
pub mod text;
pub mod worker;

pub use supervisor::Supervisor;
pub use worker::Worker;

verus! {

/// The first part of every key.
pub const KEY_PREFIX: &'static str = "build";

/// Milliseconds that a worker waits for the master before it gives up.
pub const DEFAULT_MASTER_WAIT_TIMEOUT: u64 = 10_000;

/// How many items from the tail of the queue a requeued item is put back.
pub const DEFAULT_REQUEUE_OFFSET: u64 = 42;

/// The master status with which the queue is populated and open to workers.
pub const STATUS_READY: &'static str = "ready";

/// The master status of a build that is over.
pub const STATUS_FINISHED: &'static str = "finished";

/// The master status of a build whose master has been elected and is still
/// populating the queue.
pub const STATUS_SETUP: &'static str = "setup";

/// Milliseconds between two looks at the master status or at the length of
/// the queue.
pub const POLL_INTERVAL: u64 = 100;

/// Milliseconds before a worker that found nothing to reserve tries again.
pub const RESERVE_RETRY_INTERVAL: u64 = 50;

/// Seconds for which the store keeps the error an item was acknowledged with.
pub const ERROR_REPORT_TTL: u64 = 28_800;

/// The master did not open the queue in time.
#[derive(Debug)]
pub struct LostMasterError {
    /// The master status that was last seen.
    pub status: Option<String>,
    /// The milliseconds waited.
    pub timeout: u64,
}

/// An item was acknowledged by a worker that had not reserved it.
#[derive(Debug)]
pub struct ReservationError {
    pub message: String,
}

/// One look at the master status, by someone who waits for the master.
#[derive(Debug)]
pub enum MasterWait {
    /// The queue is open.
    Ready,
    /// The queue is not open yet: look again after `POLL_INTERVAL`.
    Retry,
    /// The queue was not opened in time.
    Lost(LostMasterError),
}

/// Whether the queue is open to workers under the master status `status`.
pub open spec fn opens(status: Option<Seq<char>>) -> bool {
    status == Some(STATUS_READY@) || status == Some(STATUS_FINISHED@)
}

/// `n`, or the greatest `usize` where `n` is greater.
pub open spec fn clipped(n: nat) -> usize {
    if n > usize::MAX {
        usize::MAX
    } else {
        n as usize
    }
}

/// The items still to do, of which `queue_len` wait and `running_len` are
/// reserved.
pub open spec fn pending(queue_len: usize, running_len: usize) -> usize {
    clipped((queue_len + running_len) as nat)
}

/// The items done, of `total`, when `len` are still to do.
pub open spec fn progress_of(total: Option<usize>, len: usize) -> usize {
    match total {
        Some(total) => if total > len {
            (total - len) as usize
        } else {
            0
        },
        None => 0,
    }
}

/// The texts of `parts`.
pub open spec fn texts(parts: Seq<&str>) -> Seq<Seq<char>> {
    Seq::new(parts.len(), |i: int| parts[i]@)
}

/// The views of `strings`.
pub open spec fn views(strings: Seq<String>) -> Seq<Seq<char>> {
    Seq::new(strings.len(), |i: int| strings[i]@)
}

/// The key of a build made of `parts`: `build`, the build's identifier and
/// the parts, joined by `:`.
pub open spec fn key_of(build_id: Seq<char>, parts: Seq<Seq<char>>) -> Seq<char>
    decreases parts.len(),
{
    if parts.len() == 0 {
        KEY_PREFIX@ + seq![':'] + build_id
    } else {
        key_of(build_id, parts.drop_last()) + seq![':'] + parts.last()
    }
}

/// What a worker and a supervisor both keep: the build they belong to, and
/// what they know of it.
pub struct Base {
    pub build_id: String,
    pub is_master: bool,
    pub total: Option<usize>,
    /// Milliseconds to wait for the master.
    pub master_wait_timeout: u64,
}

impl Base {
    pub fn new(build_id: String) -> (base: Self)
        ensures
            base.build_id == build_id,
            !base.is_master,
            base.total is None,
            base.master_wait_timeout == DEFAULT_MASTER_WAIT_TIMEOUT,
    {
        Base { build_id, is_master: false, total: None, master_wait_timeout: DEFAULT_MASTER_WAIT_TIMEOUT }
    }

    /// Sets the milliseconds to wait for the master.
    pub fn set_master_wait_timeout(&mut self, timeout: u64)
        ensures
            final(self).master_wait_timeout == timeout,
            final(self).build_id == old(self).build_id,
            final(self).is_master == old(self).is_master,
            final(self).total == old(self).total,
    {
        self.master_wait_timeout = timeout;
    }

    /// The key of this build made of `parts`.
    pub fn key(&self, parts: &[&str]) -> (key: String)
        ensures
            key@ == key_of(self.build_id@, texts(parts@)),
    {
        let mut key = String::from_str(KEY_PREFIX);
        key.append(":");
        key.append(self.build_id.as_str());
        proof {
            reveal_strlit(":");
            assert(":"@ =~= seq![':']);
            assert(texts(parts@).take(0) =~= Seq::<Seq<char>>::empty());
        }
        let mut i: usize = 0;
        while i < parts.len()
            invariant
                i <= parts@.len(),
                ":"@ == seq![':'],
                key@ == key_of(self.build_id@, texts(parts@).take(i as int)),
            decreases parts@.len() - i,
        {
            key.append(":");
            key.append(parts[i]);
            proof {
                let next = texts(parts@).take(i as int + 1);
                assert(next.drop_last() =~= texts(parts@).take(i as int));
                assert(next.last() == parts@[i as int]@);
            }
            i += 1;
        }
        proof {
            assert(texts(parts@).take(i as int) =~= texts(parts@));
        }
        key
    }

    /// Whether the queue is open to workers under the master status `status`.
    pub fn is_open(status: &Option<String>) -> (open: bool)
        ensures
            open == opens(option_view(*status)),
    {
        match status {
            Some(status) => same_text(status.as_str(), STATUS_READY) || same_text(
                status.as_str(),
                STATUS_FINISHED,
            ),
            None => false,
        }
    }

    /// What to do after a look at the master status that found `status`,
    /// `elapsed` milliseconds into the wait. The master itself does not wait.
    pub fn master_wait(&self, status: Option<String>, elapsed: u64) -> (outcome: MasterWait)
        ensures
            match outcome {
                MasterWait::Ready => self.is_master || opens(option_view(status)),
                MasterWait::Retry => !self.is_master && !opens(option_view(status)) && elapsed
                    <= self.master_wait_timeout,
                MasterWait::Lost(error) => !self.is_master && !opens(option_view(status))
                    && elapsed > self.master_wait_timeout && error.status == status
                    && error.timeout == self.master_wait_timeout,
            },
    {
        if self.is_master || Self::is_open(&status) {
            MasterWait::Ready
        } else if elapsed > self.master_wait_timeout {
            MasterWait::Lost(LostMasterError { status, timeout: self.master_wait_timeout })
        } else {
            MasterWait::Retry
        }
    }

    /// The items still to do, of which `queue_len` wait and `running_len` are
    /// reserved.
    pub fn pending(queue_len: usize, running_len: usize) -> (len: usize)
        ensures
            len == pending(queue_len, running_len),
    {
        if queue_len > usize::MAX - running_len {
            usize::MAX
        } else {
            queue_len + running_len
        }
    }

    /// The items done when `len` are still to do.
    pub fn progress_at(&self, len: usize) -> (done: usize)
        ensures
            done == progress_of(self.total, len),
    {
        match self.total {
            Some(total) => if total > len {
                total - len
            } else {
                0
            },
            None => 0,
        }
    }

    /// The master status in `store`.
    pub fn master_status(&self, store: &Store) -> (status: Option<String>)
        ensures
            option_view(status) == store@.master_status,
    {
        store.master_status()
    }

    /// Waits for the master to open the queue in `store`. Nothing changes a
    /// store in memory during the wait, so a queue that is not open is not
    /// opened in time.
    pub fn wait_for_master(&self, store: &Store) -> (outcome: Result<(), LostMasterError>)
        ensures
            outcome is Ok <==> self.is_master || opens(store@.master_status),
            match outcome {
                Ok(_) => true,
                Err(error) => option_view(error.status) == store@.master_status && error.timeout
                    == self.master_wait_timeout,
            },
    {
        if self.is_master {
            return Ok(());
        }
        let status = store.master_status();
        if Self::is_open(&status) {
            Ok(())
        } else {
            Err(LostMasterError { status, timeout: self.master_wait_timeout })
        }
    }

    /// The number of items in `store` that are still to do.
    pub fn len(&self, store: &Store) -> (len: usize)
        ensures
            len == clipped(store@.len()),
    {
        Self::pending(store.queue_len(), store.running_len())
    }

    /// Whether nothing in `store` is left to do.
    pub fn is_empty(&self, store: &Store) -> (empty: bool)
        ensures
            empty == (store@.len() == 0),
    {
        self.len(store) == 0
    }

    /// The number of items that are done.
    pub fn progress(&self, store: &Store) -> (done: usize)
        ensures
            done == progress_of(self.total, clipped(store@.len())),
    {
        let len = self.len(store);
        self.progress_at(len)
    }
}

} // verus!

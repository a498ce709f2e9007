//! The supervisor: it watches a build and reserves nothing.
use super::store::Store;
use super::{clipped, opens, progress_of, Base};
use vstd::prelude::*;

verus! {

/// Watches the queue of a build until the workers have drained it.
pub struct Supervisor {
    base: Base,
}

impl Supervisor {
    /// What the supervisor knows of the build. It is never the master, and
    /// nobody tells it the total.
    pub closed spec fn spec_base(&self) -> Base {
        self.base
    }

    pub fn new(build_id: String) -> (supervisor: Self)
        ensures
            supervisor.spec_base().build_id == build_id,
            !supervisor.spec_base().is_master,
            supervisor.spec_base().total is None,
            supervisor.spec_base().master_wait_timeout == super::DEFAULT_MASTER_WAIT_TIMEOUT,
    {
        Supervisor { base: Base::new(build_id) }
    }

    pub fn base(&self) -> (base: &Base)
        ensures
            *base == self.spec_base(),
    {
        &self.base
    }

    /// Looks at `store` once: `Some(false)` where the master has not opened
    /// the queue, `Some(true)` where the queue is drained, and `None` where
    /// items are still to do and the supervisor is to look again after
    /// `POLL_INTERVAL`.
    pub fn wait_for_workers(&self, store: &Store) -> (drained: Option<bool>)
        ensures
            drained == (if !(self.spec_base().is_master || opens(store@.master_status)) {
                Some(false)
            } else if store@.len() == 0 {
                Some(true)
            } else {
                None
            }),
    {
        if self.base.wait_for_master(store).is_err() {
            return Some(false);
        }
        if self.base.is_empty(store) {
            Some(true)
        } else {
            None
        }
    }

    /// The number of items in `store` that are still to do.
    pub fn len(&self, store: &Store) -> (len: usize)
        ensures
            len == clipped(store@.len()),
    {
        self.base.len(store)
    }

    /// Whether nothing in `store` is left to do.
    pub fn is_empty(&self, store: &Store) -> (empty: bool)
        ensures
            empty == (store@.len() == 0),
    {
        self.base.is_empty(store)
    }

    /// The number of items that are done, as far as the supervisor knows.
    pub fn progress(&self, store: &Store) -> (done: usize)
        ensures
            done == progress_of(self.spec_base().total, clipped(store@.len())),
    {
        self.base.progress(store)
    }
}

} // verus!

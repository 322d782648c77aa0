//! The handle that asks every write worker to stop.

use std::sync::atomic::{AtomicBool, Ordering};
use std::sync::Arc;
use vstd::prelude::*;

verus! {

/// Owner of the shared stop flag of one write workload.
pub struct WritesStopper {
    should_stop: Arc<AtomicBool>,
}

impl WritesStopper {
    /// The flag this handle raises.
    pub closed spec fn flag(&self) -> Arc<AtomicBool> {
        self.should_stop
    }

    /// Wraps the flag that the workers of one workload read on every tick.
    pub fn new(should_stop: Arc<AtomicBool>) -> (stopper: WritesStopper)
        ensures
            stopper.flag() == should_stop,
    {
        WritesStopper { should_stop }
    }

    /// The flag, for the workers to read.
    pub fn should_stop(&self) -> (flag: &Arc<AtomicBool>)
        ensures
            *flag == self.flag(),
    {
        &self.should_stop
    }

    /// Raises the flag. Returns at once: no worker is waited for.
    pub fn stop(&self) {
        self.should_stop.store(true, Ordering::Relaxed);
    }
}

} // verus!

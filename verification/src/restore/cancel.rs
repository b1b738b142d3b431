//! Cancelling a restore from another task.

use vstd::prelude::*;

use std::sync::atomic::AtomicBool;
use std::sync::Arc;

verus! {

/// A handle that stops a restore in progress.
///
/// Clones share one flag: cancelling through any of them is seen by all.
/// The flag is shared state that other tasks write, so what a read returns
/// is not stated here.
#[derive(Debug, Clone)]
pub struct RestoreCancel {
    flag: Arc<AtomicBool>,
}

impl RestoreCancel {
    /// A fresh handle that has not been cancelled.
    pub fn new() -> RestoreCancel {
        RestoreCancel { flag: Arc::new(AtomicBool::new(false)) }
    }

    /// Asks the restore to stop at its next check point.
    pub fn cancel(&self) {
        self.flag.store(true, std::sync::atomic::Ordering::Relaxed);
    }

    /// Whether cancellation has been asked for, by this handle or a clone.
    pub fn is_cancelled(&self) -> bool {
        self.flag.load(std::sync::atomic::Ordering::Relaxed)
    }
}

} // verus!

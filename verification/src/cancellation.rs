//! A cooperative cancellation flag shared by every stage of a run.

use vstd::prelude::*;
use std::sync::Arc;
use std::sync::atomic::{AtomicBool, Ordering};

verus! {

/// Cloning shares the flag: cancelling one clone cancels them all.
#[derive(Clone, Debug)]
pub struct CancellationToken {
    flag: Arc<AtomicBool>,
}

impl CancellationToken {
    /// A token that is not cancelled.
    pub fn new() -> (t: Self) {
        CancellationToken { flag: Arc::new(AtomicBool::new(false)) }
    }

    /// Requests cancellation; it cannot be undone.
    pub fn cancel(&self) {
        self.flag.store(true, Ordering::SeqCst);
    }

    /// Whether cancellation was requested, by this token or a clone.
    pub fn is_cancelled(&self) -> (b: bool) {
        self.flag.load(Ordering::SeqCst)
    }
}

impl Default for CancellationToken {
    fn default() -> (t: Self) {
        Self::new()
    }
}

} // verus!

//! Cooperative shutdown signal.

use std::sync::atomic::{AtomicBool, Ordering};
use std::sync::Arc;

use vstd::prelude::*;

verus! {

/// Process-wide shutdown flag that workers poll. Clones share one flag.
#[derive(Debug)]
pub struct Shutdown {
    flag: Arc<AtomicBool>,
}

impl Clone for Shutdown {
    fn clone(&self) -> (r: Self) {
        Shutdown { flag: Arc::clone(&self.flag) }
    }
}

impl Shutdown {
    pub fn new() -> Self {
        Shutdown { flag: Arc::new(AtomicBool::new(false)) }
    }

    pub fn trigger(&self) {
        self.flag.store(true, Ordering::SeqCst);
    }

    /// Whether some holder of the flag has triggered it. Other threads may
    /// trigger it at any moment, so the answer is only a snapshot.
    pub fn is_triggered(&self) -> bool {
        self.flag.load(Ordering::SeqCst)
    }
}

impl Default for Shutdown {
    fn default() -> Self {
        Self::new()
    }
}

} // verus!

//! An atomic latch that tells whether a shared buffer has ever been
//! written: like an atomic `Option` kept as a separate flag.
//!
//! The latest-value exchange needs it because its storage cells cannot be
//! pre-populated with a meaningful value of an arbitrary payload type: the
//! guard gives the exchange a well-defined "never written" state instead.

use core::sync::atomic::AtomicBool;
use core::sync::atomic::Ordering;
use vstd::prelude::*;

verus! {

/// A single idempotent latch: starts clear, set exactly once (idempotently)
/// on the first publish, read before every consumption attempt, never
/// reset. It is shared between two threads and flips through `&self`, so
/// its observable state lives outside the value itself and the calls below
/// carry no value contracts; the latch's role in the exchange protocol is
/// captured by the `written` field of the model in
/// [`crate::triple_buffer_model`].
pub struct InitialWriteGuard {
    has_data: AtomicBool,
}

impl InitialWriteGuard {
    /// Create a new [`InitialWriteGuard`], initially clear.
    pub fn new() -> InitialWriteGuard {
        InitialWriteGuard { has_data: AtomicBool::new(false) }
    }

    /// True if data has been added before. The acquire load pairs with the
    /// release store of [`Self::set_has_data`], so the data published
    /// before the set is visible to the thread that sees the guard set.
    pub fn has_data(&self) -> bool {
        self.has_data.load(Ordering::Acquire)
    }

    /// Inform the guard that data has been added.
    pub fn set_has_data(&self) {
        self.has_data.store(true, Ordering::Release);
    }
}

impl Default for InitialWriteGuard {
    fn default() -> Self {
        Self::new()
    }
}

} // verus!

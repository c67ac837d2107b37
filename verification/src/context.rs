//! Cancelling a running tool from outside.

use std::sync::Arc;
use std::sync::atomic::AtomicBool;
use vstd::prelude::*;

verus! {

/// A cancellation flag shared by clones: cancelling one clone is seen by
/// all of them. The flag only ever goes from unset to set.
///
/// The flag is a `std` atomic that other clones, on other threads, may set
/// at any time; no contract here says what it holds (Verus gives `std`
/// atomics no value, and its own atomics need tracked ghost state).
#[derive(Clone, Debug)]
pub struct CancelToken {
    flag: Arc<AtomicBool>,
}

impl CancelToken {
    /// A token that is not cancelled.
    pub fn new() -> (r: Self) {
        CancelToken { flag: Arc::new(AtomicBool::new(false)) }
    }

    /// Cancels: sets the shared flag.
    pub fn cancel(&self) {
        self.flag.store(true, std::sync::atomic::Ordering::SeqCst);
    }

    /// Whether the shared flag has been set.
    pub fn is_cancelled(&self) -> (r: bool) {
        self.flag.load(std::sync::atomic::Ordering::SeqCst)
    }
}

} // verus!

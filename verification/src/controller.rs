use vstd::prelude::*;

verus! {

/// Per-attempt cancellation handle handed to application callbacks.
///
/// A fresh controller starts each connection attempt; once `abort` has been
/// called, every method that changes the controller keeps it aborted, so the
/// flag is monotone within an attempt.
#[derive(Clone)]
pub struct SseController {
    is_aborted: bool,
}

impl SseController {
    /// Whether an abort has been requested.
    pub closed spec fn spec_aborted(&self) -> bool {
        self.is_aborted
    }

    pub fn new() -> (c: Self)
        ensures
            !c.spec_aborted(),
    {
        Self { is_aborted: false }
    }

    /// Request cancellation of the current attempt; idempotent.
    pub fn abort(&mut self)
        ensures
            final(self).spec_aborted(),
    {
        self.is_aborted = true;
    }

    pub fn is_aborted(&self) -> (r: bool)
        ensures
            r == self.spec_aborted(),
    {
        self.is_aborted
    }
}

} // verus!

//! The single-flight request slot shared by the request/response
//! services: at most one caller waits for a given response kind, and an
//! inbound response fulfills the waiter exactly when one is armed.

use vstd::prelude::*;

verus! {

/// One pending request: armed by the requester, consumed by the inbound
/// handler. Re-arming while a request is pending displaces the earlier
/// waiter, which is then never fulfilled.
pub struct RequestSlot {
    pub pending: bool,
}

impl RequestSlot {
    /// An empty slot.
    pub fn new() -> (r: RequestSlot)
        ensures
            !r.pending,
    {
        RequestSlot { pending: false }
    }

    /// Arms the slot for one response.
    pub fn prepare(&mut self)
        ensures
            final(self).pending,
    {
        self.pending = true;
    }

    /// Consumes the waiter on a response: true exactly when one was
    /// armed, which is then cleared. The response value is delivered to
    /// the caller exactly when this returns true.
    pub fn fulfill(&mut self) -> (had_waiter: bool)
        ensures
            had_waiter == old(self).pending,
            !final(self).pending,
    {
        let had = self.pending;
        self.pending = false;
        had
    }

    /// Clears the waiter on a failure, so a retry can arm it again.
    pub fn fail(&mut self) -> (had_waiter: bool)
        ensures
            had_waiter == old(self).pending,
            !final(self).pending,
    {
        let had = self.pending;
        self.pending = false;
        had
    }
}

} // verus!

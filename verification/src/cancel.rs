//! Request-scoped cancellation: a monotonic request id plus a cancelled flag.
//!
//! Each family of long-running operations (directory streaming, transfers)
//! owns one token.  A newer request silently supersedes an older one: workers
//! poll `is_stale` before every unit of work and before every emission, and
//! simply stop once their request id is no longer current.

use vstd::prelude::*;

verus! {

/// Cancellation token for one family of operations.
pub struct CancelToken {
    /// The request currently considered active.
    pub current_id: u64,
    /// Set by an explicit cancel call; cleared when a new request begins.
    pub cancelled: bool,
}

impl CancelToken {
    /// A request is stale when the token was cancelled or a different
    /// request has become current.
    pub open spec fn spec_is_stale(self, id: u64) -> bool {
        self.cancelled || self.current_id != id
    }

    /// Fresh token: request 0 active, not cancelled.
    pub fn new() -> (t: Self)
        ensures
            t.current_id == 0,
            !t.cancelled,
    {
        CancelToken { current_id: 0, cancelled: false }
    }

    /// Make `id` the current request and clear the cancelled flag.
    pub fn begin(&mut self, id: u64)
        ensures
            final(self).current_id == id,
            !final(self).cancelled,
    {
        self.current_id = id;
        self.cancelled = false;
    }

    /// Cancel the current request without changing which one is current.
    pub fn cancel(&mut self)
        ensures
            final(self).cancelled,
            final(self).current_id == old(self).current_id,
    {
        self.cancelled = true;
    }

    /// Poll whether the request `id` has been superseded or cancelled.
    pub fn is_stale(&self, id: u64) -> (r: bool)
        ensures
            r == self.spec_is_stale(id),
    {
        self.cancelled || self.current_id != id
    }
}

/// Cancellation monotonicity: once a newer request has begun, every older
/// request is stale, and stays stale under any further `begin` or `cancel`
/// transition that does not reinstate the old id.
pub proof fn lemma_newer_request_supersedes(t: CancelToken, older: u64, newer: u64)
    requires
        t.current_id == newer,
        older != newer,
    ensures
        t.spec_is_stale(older),
{
}

} // verus!

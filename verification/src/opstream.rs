//! Paste-operation state: the cancellation token for the transfer family
//! and the conflict-resolution hand-off slot.
//!
//! The slot holds at most one outstanding request/response pair.  The
//! executor posts a request and parks; the UI-facing submission call fills
//! in the response for that exact request id; the executor re-validates and
//! consumes it.  Parking and waking live with the caller — the slot itself
//! is the state machine both sides agree on.

use vstd::prelude::*;
use vstd::string::StringExecFns;

use crate::cancel::CancelToken;
use crate::strutil::str_eq;

verus! {

/// The operation a clipboard payload asks for.
#[derive(Clone, Copy, Debug, PartialEq, Eq, Structural)]
pub enum ClipboardOp {
    Copy,
    Move,
    Link,
    /// The clipboard held no recognisable drop effect.
    Unknown,
}

/// How to resolve one destination collision.
#[derive(Clone, Copy, Debug, PartialEq, Eq, Structural)]
pub enum DuplicateStrategy {
    /// Skip the entry entirely.
    Ignore,
    /// Delete the existing destination file first.
    Replace,
    /// Find a free name by appending an incrementing counter.
    Index,
}

/// A collision the UI must resolve.
pub struct ConflictRequest {
    /// The paste operation this conflict belongs to.
    pub request_id: u64,
    /// Source path being transferred.
    pub src: String,
    /// Intended destination path where the collision occurred.
    pub dest: String,
    /// Display-friendly file name.
    pub name: String,
}

/// Two conflict requests carrying the same data.
pub open spec fn request_eqv(a: ConflictRequest, b: ConflictRequest) -> bool {
    &&& a.request_id == b.request_id
    &&& a.src@ == b.src@
    &&& a.dest@ == b.dest@
    &&& a.name@ == b.name@
}

impl Clone for ConflictRequest {
    /// A copy carrying the same data.
    fn clone(&self) -> (r: Self)
        ensures
            request_eqv(r, *self),
    {
        ConflictRequest {
            request_id: self.request_id,
            src: self.src.clone(),
            dest: self.dest.clone(),
            name: self.name.clone(),
        }
    }
}

/// The user's answer to a conflict.
#[derive(Clone, Copy, Debug, PartialEq, Eq, Structural)]
pub struct ConflictResponse {
    pub strategy: DuplicateStrategy,
    /// Reuse this strategy for every remaining conflict of the operation.
    pub repeat_for_all: bool,
}

/// Shared state of one paste stream: its cancellation token and the
/// single-occupancy conflict slot.
pub struct CopyStreamState {
    /// Cancellation token of the transfer family.
    pub token: CancelToken,
    /// The outstanding conflict, if any.
    pub request: Option<ConflictRequest>,
    /// The answer to the outstanding conflict, once submitted.
    pub response: Option<ConflictResponse>,
}

impl CopyStreamState {
    /// Fresh state: request 0 current, nothing pending.
    pub fn new() -> (s: Self)
        ensures
            s.token.current_id == 0,
            !s.token.cancelled,
            s.request is None,
            s.response is None,
    {
        CopyStreamState {
            token: CancelToken::new(),
            request: None,
            response: None,
        }
    }

    /// Post a conflict request into the slot, clearing any previous answer.
    /// The executor then waits until an answer for this request arrives.
    pub fn request_conflict_decision(&mut self, request: ConflictRequest)
        ensures
            final(self).request == Some(request),
            final(self).response is None,
            final(self).token == old(self).token,
    {
        self.request = Some(request);
        self.response = None;
    }

    /// Submit the user's decision.  Accepted exactly when a request is
    /// pending and carries the same id; a stale or unsolicited submission
    /// is rejected and changes nothing.
    pub fn submit_conflict_response(&mut self, request_id: u64, response: ConflictResponse) -> (r:
        Result<(), String>)
        ensures
            r is Ok <==> (old(self).request matches Some(req) && req.request_id == request_id),
            r is Ok ==> *final(self) == (CopyStreamState {
                response: Some(response),
                ..*old(self)
            }),
            r is Err ==> *final(self) == *old(self),
            r matches Err(m) ==> (if old(self).request is None {
                m@ == "no pending conflict request"@
            } else {
                m@ == "mismatched request id"@
            }),
    {
        match &self.request {
            Some(req) => {
                if req.request_id != request_id {
                    return Err(String::from_str("mismatched request id"));
                }
            },
            None => {
                return Err(String::from_str("no pending conflict request"));
            },
        }
        self.response = Some(response);
        Ok(())
    }

    /// Peek the outstanding request without consuming it.
    pub fn take_pending_request(&self) -> (r: Option<ConflictRequest>)
        ensures
            match r {
                Some(req) => self.request matches Some(p) && request_eqv(req, p),
                None => self.request is None,
            },
    {
        match &self.request {
            Some(req) => Some(req.clone()),
            None => None,
        }
    }

    /// Consume the answer for the request the executor is blocked on.
    /// Yields the response exactly when the pending request carries
    /// `request_id` and an answer has arrived; the slot is then cleared.
    pub fn consume_response(&mut self, request_id: u64) -> (r: Option<ConflictResponse>)
        ensures
            match r {
                Some(resp) => {
                    &&& old(self).request matches Some(req) && req.request_id == request_id
                    &&& old(self).response == Some(resp)
                    &&& final(self).request is None
                    &&& final(self).response is None
                    &&& final(self).token == old(self).token
                },
                None => {
                    &&& *final(self) == *old(self)
                    &&& !(old(self).request matches Some(req) && req.request_id == request_id
                        && old(self).response is Some)
                },
            },
    {
        let matches_id = match &self.request {
            Some(req) => req.request_id == request_id,
            None => false,
        };
        if !matches_id {
            return None;
        }
        match self.response {
            Some(resp) => {
                self.request = None;
                self.response = None;
                Some(resp)
            },
            None => None,
        }
    }
}

/// A decision payload as the UI submits it.
pub struct ResolveCopyPayload {
    pub request_id: u64,
    /// One of `"Ignore"`, `"Replace"`, `"Index"`.
    pub strategy: String,
    pub repeat_for_all: bool,
}

/// Which strategy a payload string names.
pub open spec fn strategy_of(s: Seq<char>) -> Option<DuplicateStrategy> {
    if s == "Ignore"@ {
        Some(DuplicateStrategy::Ignore)
    } else if s == "Replace"@ {
        Some(DuplicateStrategy::Replace)
    } else if s == "Index"@ {
        Some(DuplicateStrategy::Index)
    } else {
        None
    }
}

/// Parse a submitted decision and hand it to the slot.  Fails on an unknown
/// strategy name or on a submission that matches no pending request.
pub fn resolve_copy_conflict(state: &mut CopyStreamState, payload: ResolveCopyPayload) -> (r:
    Result<(), String>)
    ensures
        strategy_of(payload.strategy@) is None ==> r is Err && *final(state) == *old(state),
        strategy_of(payload.strategy@) matches Some(strat) ==> {
            &&& r is Ok <==> (old(state).request matches Some(req) && req.request_id
                == payload.request_id)
            &&& r is Ok ==> *final(state) == (CopyStreamState {
                response: Some(
                    ConflictResponse { strategy: strat, repeat_for_all: payload.repeat_for_all },
                ),
                ..*old(state)
            })
            &&& r is Err ==> *final(state) == *old(state)
        },
{
    let strat = if str_eq(payload.strategy.as_str(), "Ignore") {
        DuplicateStrategy::Ignore
    } else if str_eq(payload.strategy.as_str(), "Replace") {
        DuplicateStrategy::Replace
    } else if str_eq(payload.strategy.as_str(), "Index") {
        DuplicateStrategy::Index
    } else {
        return Err(String::from_str("unknown strategy"));
    };
    let resp = ConflictResponse { strategy: strat, repeat_for_all: payload.repeat_for_all };
    state.submit_conflict_response(payload.request_id, resp)
}

} // verus!

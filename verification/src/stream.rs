//! Two-phase directory stream engine.
//!
//! Phase 1 emits one metadata event per snapshot entry, in the sorted order
//! computed once at scan time, then a phase-complete event.  Phase 2 hands
//! out one thumbnail task per entry (resolved in parallel by the caller;
//! consumers correlate by path, not by sequence).  A final event closes the
//! stream.  Every step polls the cancellation token first: a stale request
//! yields no further event of any kind.

use vstd::prelude::*;

use crate::cancel::CancelToken;
use crate::layouts::SortKey;
use crate::snapshot::{entries_sorted, entry_eqv, sort_entries, EntryMeta};

verus! {

/// One phase-1 step: a metadata item, or the end of phase 1.
pub enum MetaStep {
    /// The next entry, in sorted order.
    Item(EntryMeta),
    /// All metadata has been emitted.
    PhaseComplete,
}

/// The streaming state machine for one request.
pub struct DirStream {
    /// The request this stream answers; stale once a newer one begins.
    pub request_id: u64,
    /// The snapshot, sorted once at construction.
    pub entries: Vec<EntryMeta>,
    /// How many metadata items have been emitted.
    pub meta_sent: usize,
    /// Whether the phase-1-complete event has been emitted.
    pub meta_complete: bool,
    /// Whether the terminal stream-complete event has been emitted.
    pub finished: bool,
}

impl DirStream {
    /// The engine never emits more than it has.
    pub open spec fn wf(self) -> bool {
        &&& self.meta_sent <= self.entries@.len()
        &&& self.meta_complete ==> self.meta_sent == self.entries@.len()
        &&& self.finished ==> self.meta_complete
    }

    /// Start a stream: make `request_id` current on the token (superseding
    /// any older request) and sort the snapshot.
    pub fn new(
        snapshot: Vec<EntryMeta>,
        k: SortKey,
        asc: bool,
        request_id: u64,
        token: &mut CancelToken,
    ) -> (s: Self)
        ensures
            s.wf(),
            s.request_id == request_id,
            s.meta_sent == 0,
            !s.meta_complete,
            !s.finished,
            entries_sorted(k, asc, s.entries@),
            s.entries@.to_multiset() == snapshot@.to_multiset(),
            final(token).current_id == request_id,
            !final(token).cancelled,
            !final(token).spec_is_stale(request_id),
    {
        token.begin(request_id);
        let mut entries = snapshot;
        sort_entries(&mut entries, k, asc);
        DirStream { request_id, entries, meta_sent: 0, meta_complete: false, finished: false }
    }

    /// Advance phase 1 by one event.  A stale request yields nothing and
    /// never will again; otherwise the entries come out one by one in the
    /// sorted order, followed by exactly one phase-complete event.
    pub fn next_metadata(&mut self, token: &CancelToken) -> (ev: Option<MetaStep>)
        requires
            old(self).wf(),
        ensures
            final(self).wf(),
            final(self).request_id == old(self).request_id,
            final(self).entries@ == old(self).entries@,
            final(self).finished == old(self).finished,
            token.spec_is_stale(old(self).request_id) ==> ev is None && *final(self) == *old(
                self,
            ),
            !token.spec_is_stale(old(self).request_id) ==> match ev {
                Some(MetaStep::Item(e)) => {
                    &&& old(self).meta_sent < old(self).entries@.len()
                    &&& entry_eqv(e, old(self).entries@[old(self).meta_sent as int])
                    &&& final(self).meta_sent == old(self).meta_sent + 1
                    &&& final(self).meta_complete == old(self).meta_complete
                },
                Some(MetaStep::PhaseComplete) => {
                    &&& old(self).meta_sent == old(self).entries@.len()
                    &&& !old(self).meta_complete
                    &&& final(self).meta_complete
                    &&& final(self).meta_sent == old(self).meta_sent
                },
                None => old(self).meta_complete && *final(self) == *old(self),
            },
    {
        if token.is_stale(self.request_id) {
            return None;
        }
        if self.meta_sent < self.entries.len() {
            let e = self.entries[self.meta_sent].clone();
            self.meta_sent = self.meta_sent + 1;
            Some(MetaStep::Item(e))
        } else if !self.meta_complete {
            self.meta_complete = true;
            Some(MetaStep::PhaseComplete)
        } else {
            None
        }
    }

    /// Number of thumbnail tasks phase 2 fans out (one per entry).
    /// Phase 2 begins only once phase 1 has completed.
    pub fn thumb_task_count(&self) -> (n: usize)
        requires
            self.meta_complete,
        ensures
            n == self.entries@.len(),
    {
        self.entries.len()
    }

    /// The path of one phase-2 task.  Workers resolve tasks in any order;
    /// each checks the token before starting and before emitting.
    pub fn thumb_task_path(&self, i: usize) -> (p: &String)
        requires
            self.meta_complete,
            i < self.entries@.len(),
        ensures
            p@ == self.entries@[i as int].path@,
    {
        &self.entries[i].path
    }

    /// Whether a worker may emit a thumbnail event for this stream now:
    /// only while the request is still current, and only once the
    /// phase-1-complete event is out — every phase-2 emission is causally
    /// after it.
    pub fn may_emit_thumbnail(&self, token: &CancelToken) -> (r: bool)
        ensures
            r == (!token.spec_is_stale(self.request_id) && self.meta_complete),
    {
        !token.is_stale(self.request_id) && self.meta_complete
    }

    /// Close the stream: the terminal event is emitted exactly when the
    /// request is still current and phase 1 ran to completion.
    pub fn finish(&mut self, token: &CancelToken) -> (emit: bool)
        requires
            old(self).wf(),
        ensures
            final(self).wf(),
            emit == (!token.spec_is_stale(old(self).request_id) && old(self).meta_complete
                && !old(self).finished),
            final(self).finished == (old(self).finished || emit),
            final(self).request_id == old(self).request_id,
            final(self).entries@ == old(self).entries@,
            final(self).meta_sent == old(self).meta_sent,
            final(self).meta_complete == old(self).meta_complete,
    {
        if token.is_stale(self.request_id) {
            return false;
        }
        if self.meta_complete && !self.finished {
            self.finished = true;
            true
        } else {
            false
        }
    }
}

/// One phase-1 step of the Home view.
pub enum HomeStep {
    /// The next cached item, in cache order.
    Item(crate::home::HomeEntry),
    /// All metadata has been emitted.
    PhaseComplete,
}

/// The Home view's stream: the same phase structure and cancellation
/// discipline as a real directory, but the entries come from the recency
/// cache in its own order — nothing is re-sorted.
pub struct HomeStream {
    pub request_id: u64,
    pub entries: Vec<crate::home::HomeEntry>,
    pub meta_sent: usize,
    pub meta_complete: bool,
    pub finished: bool,
}

impl HomeStream {
    /// The engine never emits more than it has.
    pub open spec fn wf(self) -> bool {
        &&& self.meta_sent <= self.entries@.len()
        &&& self.meta_complete ==> self.meta_sent == self.entries@.len()
        &&& self.finished ==> self.meta_complete
    }

    /// Start a Home stream: make `request_id` current on the token.
    pub fn new(entries: Vec<crate::home::HomeEntry>, request_id: u64, token: &mut CancelToken) -> (s:
        Self)
        ensures
            s.wf(),
            s.request_id == request_id,
            s.meta_sent == 0,
            !s.meta_complete,
            !s.finished,
            s.entries@ == entries@,
            final(token).current_id == request_id,
            !final(token).cancelled,
    {
        token.begin(request_id);
        HomeStream { request_id, entries, meta_sent: 0, meta_complete: false, finished: false }
    }

    /// Advance phase 1 by one event, exactly as a directory stream does:
    /// nothing once stale, else the cached items one by one in cache
    /// order, then one phase-complete event.
    pub fn next_metadata(&mut self, token: &CancelToken) -> (ev: Option<HomeStep>)
        requires
            old(self).wf(),
        ensures
            final(self).wf(),
            final(self).request_id == old(self).request_id,
            final(self).entries@ == old(self).entries@,
            final(self).finished == old(self).finished,
            token.spec_is_stale(old(self).request_id) ==> ev is None && *final(self) == *old(
                self,
            ),
            !token.spec_is_stale(old(self).request_id) ==> match ev {
                Some(HomeStep::Item(e)) => {
                    &&& old(self).meta_sent < old(self).entries@.len()
                    &&& crate::home::home_entry_data(e) == crate::home::home_entry_data(
                        old(self).entries@[old(self).meta_sent as int],
                    )
                    &&& final(self).meta_sent == old(self).meta_sent + 1
                    &&& final(self).meta_complete == old(self).meta_complete
                },
                Some(HomeStep::PhaseComplete) => {
                    &&& old(self).meta_sent == old(self).entries@.len()
                    &&& !old(self).meta_complete
                    &&& final(self).meta_complete
                    &&& final(self).meta_sent == old(self).meta_sent
                },
                None => old(self).meta_complete && *final(self) == *old(self),
            },
    {
        if token.is_stale(self.request_id) {
            return None;
        }
        if self.meta_sent < self.entries.len() {
            let e = self.entries[self.meta_sent].clone();
            self.meta_sent = self.meta_sent + 1;
            Some(HomeStep::Item(e))
        } else if !self.meta_complete {
            self.meta_complete = true;
            Some(HomeStep::PhaseComplete)
        } else {
            None
        }
    }

    /// Whether a worker may emit a thumbnail event for this stream now:
    /// only while the request is still current, and only once the
    /// phase-1-complete event is out.
    pub fn may_emit_thumbnail(&self, token: &CancelToken) -> (r: bool)
        ensures
            r == (!token.spec_is_stale(self.request_id) && self.meta_complete),
    {
        !token.is_stale(self.request_id) && self.meta_complete
    }

    /// Close the stream, exactly as a directory stream does.
    pub fn finish(&mut self, token: &CancelToken) -> (emit: bool)
        requires
            old(self).wf(),
        ensures
            final(self).wf(),
            emit == (!token.spec_is_stale(old(self).request_id) && old(self).meta_complete
                && !old(self).finished),
            final(self).finished == (old(self).finished || emit),
            final(self).request_id == old(self).request_id,
            final(self).entries@ == old(self).entries@,
            final(self).meta_sent == old(self).meta_sent,
            final(self).meta_complete == old(self).meta_complete,
    {
        if token.is_stale(self.request_id) {
            return false;
        }
        if self.meta_complete && !self.finished {
            self.finished = true;
            true
        } else {
            false
        }
    }
}

/// Cancellation monotonicity for streams: the moment a newer request has
/// begun on the family's token, an older stream's request is stale — and
/// a stale stream emits nothing, by the contracts of `next_metadata`,
/// `may_emit_thumbnail` and `finish`.
pub proof fn lemma_superseded_stream_is_silent(s: DirStream, token: CancelToken)
    requires
        token.current_id != s.request_id,
    ensures
        token.spec_is_stale(s.request_id),
{
}

} // verus!

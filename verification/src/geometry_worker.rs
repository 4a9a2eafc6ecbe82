//! Correlation of asynchronous geometry replies.
//!
//! Geometry lookups run on a background task and answer out of band.
//! A monotonic counter is the only identity a request has; the reactor
//! honors a reply only when it bears the one currently outstanding id,
//! so a reply to a superseded request can never touch window state.

use vstd::prelude::*;

use crate::geometry_provider::Geometry;

verus! {

/// A completed lookup pushed back by the worker task: the caller's
/// correlation data and the geometry found.
pub enum GeometryWorkerEvent<U> {
    ActiveWindow(U, Geometry),
}

/// The reactor's record of geometry requests: the next correlation id
/// to hand out, and the single request whose reply is still honored,
/// with the window it concerns.
pub struct CorrelationTracker {
    pub next_id: u64,
    pub current: Option<(u64, u32)>,
}

impl CorrelationTracker {
    /// Every id ever handed out is below `next_id`.
    pub open spec fn wf(&self) -> bool {
        match self.current {
            Some(p) => p.0 < self.next_id,
            None => true,
        }
    }

    pub fn new() -> (t: CorrelationTracker)
        ensures
            t.wf(),
            t.next_id == 0,
            t.current is None,
    {
        CorrelationTracker { next_id: 0, current: None }
    }

    /// Issue a fresh request for `window`. The returned id strictly
    /// supersedes every id handed out before, which is therefore no
    /// longer honored.
    pub fn issue(&mut self, window: u32) -> (id: u64)
        requires
            old(self).wf(),
            old(self).next_id < u64::MAX,
        ensures
            final(self).wf(),
            id == old(self).next_id,
            final(self).next_id == id + 1,
            final(self).current == Some((id, window)),
    {
        let id = self.next_id;
        self.next_id = self.next_id + 1;
        self.current = Some((id, window));
        id
    }

    /// Whether a reply bearing `id` is the one currently honored.
    pub fn accept(&self, id: u64) -> (hit: bool)
        ensures
            hit <==> (self.current matches Some(p) && p.0 == id),
    {
        match self.current {
            Some((cur, _)) => cur == id,
            None => false,
        }
    }

    /// Honor a reply: exactly when `id` is the current request, yield
    /// the window it was issued for and retire the request; any other
    /// id — every superseded one among them — changes nothing.
    pub fn resolve(&mut self, id: u64) -> (target: Option<u32>)
        ensures
            old(self).wf() ==> final(self).wf(),
            final(self).next_id == old(self).next_id,
            (old(self).current is Some && old(self).current.unwrap().0 == id) ==> ({
                &&& target == Some(old(self).current.unwrap().1)
                &&& final(self).current is None
            }),
            !(old(self).current is Some && old(self).current.unwrap().0 == id) ==> ({
                &&& target is None
                &&& *final(self) == *old(self)
            }),
    {
        match self.current {
            Some((cur, window)) => {
                if cur == id {
                    self.current = None;
                    Some(window)
                } else {
                    None
                }
            }
            None => None,
        }
    }
}

/// At most one correlation id is ever current, and issuing makes every
/// earlier id stale for good: after a new request, a reply bearing any
/// id handed out before it is not accepted, however the arrivals
/// interleave.
pub proof fn lemma_stale_id_never_accepted(before: CorrelationTracker, after: CorrelationTracker, new_id: u64, old_id: u64, window: u32)
    requires
        before.wf(),
        before.next_id < u64::MAX,
        // `after` is `before` with one more request issued, as `issue` ensures
        new_id == before.next_id,
        after.next_id == new_id + 1,
        after.current == Some((new_id, window)),
        // `old_id` was handed out before the new request
        old_id < before.next_id,
    ensures
        after.wf(),
        !(after.current matches Some(p) && p.0 == old_id),
{
}

} // verus!

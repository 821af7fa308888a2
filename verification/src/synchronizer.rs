//! The Synchronizer repairs gaps in the local view of the chain.
//!
//! When a block arrives whose parent is unknown, the block is buffered
//! and a fetch for the missing ancestor is issued to the peers — at most
//! once per ancestor: repeated requests for a hash that is already being
//! fetched, or that has already been delivered, never trigger another
//! network fetch.  The network itself lives in the surrounding process;
//! this component only decides when a fetch goes out and which buffered
//! descendants become ready once an ancestor arrives.

use vstd::prelude::*;

use crate::messages::Block;

verus! {

/// An ancestor fetch that is still unanswered.
#[derive(Clone, Copy, Debug, PartialEq, Eq, Structural)]
pub struct PendingFetch {
    /// The hash of the missing block.
    pub hash: u64,
    /// How often the fetch has been re-sent.
    pub retries: u64,
}

/// The blocks of `s`, in order, whose parent certificate points at `h`.
pub open spec fn waiting_for(s: Seq<Block>, h: u64) -> Seq<Block>
    decreases s.len(),
{
    if s.len() == 0 {
        Seq::empty()
    } else if s[0].qc.hash == h {
        Seq::empty().push(s[0]) + waiting_for(s.drop_first(), h)
    } else {
        waiting_for(s.drop_first(), h)
    }
}

/// The blocks of `s`, in order, whose parent certificate does not point
/// at `h`.
pub open spec fn still_waiting(s: Seq<Block>, h: u64) -> Seq<Block>
    decreases s.len(),
{
    if s.len() == 0 {
        Seq::empty()
    } else if s[0].qc.hash == h {
        still_waiting(s.drop_first(), h)
    } else {
        Seq::empty().push(s[0]) + still_waiting(s.drop_first(), h)
    }
}

/// Tracks outstanding ancestor fetches and the blocks buffered behind
/// them.
pub struct Synchronizer {
    /// Configured retry interval, in milliseconds, for the process timer.
    pub retry_delay: u64,
    /// How often a fetch is re-sent before the branch is abandoned.
    pub max_retries: u64,
    /// Outstanding fetches, one entry per missing hash.
    pub pending: Vec<PendingFetch>,
    /// Hashes whose blocks have already been delivered.
    pub resolved: Vec<u64>,
    /// Blocks waiting for a missing parent, in arrival order.
    pub buffered: Vec<Block>,
}

impl Synchronizer {
    /// A fetch for `h` is outstanding.
    pub open spec fn is_pending(self, h: u64) -> bool {
        exists|i: int| 0 <= i < self.pending@.len() && self.pending@[i].hash == h
    }

    /// The block with hash `h` has already been delivered.
    pub open spec fn is_resolved(self, h: u64) -> bool {
        self.resolved@.contains(h)
    }

    /// At most one pending entry per hash.
    pub open spec fn wf(self) -> bool {
        forall|i: int, j: int|
            0 <= i < j < self.pending@.len() ==> self.pending@[i].hash != self.pending@[j].hash
    }

    pub fn new(retry_delay: u64, max_retries: u64) -> (s: Synchronizer)
        ensures
            s.wf(),
            s.retry_delay == retry_delay,
            s.max_retries == max_retries,
            s.pending@.len() == 0,
            s.resolved@.len() == 0,
            s.buffered@.len() == 0,
    {
        Synchronizer {
            retry_delay,
            max_retries,
            pending: Vec::new(),
            resolved: Vec::new(),
            buffered: Vec::new(),
        }
    }

    fn find_pending(&self, h: u64) -> (r: Option<usize>)
        ensures
            match r {
                Some(i) => i < self.pending@.len() && self.pending@[i as int].hash == h,
                None => !self.is_pending(h),
            },
    {
        let n = self.pending.len();
        let mut i: usize = 0;
        while i < n
            invariant
                n == self.pending@.len(),
                i <= n,
                forall|p: int| 0 <= p < i ==> self.pending@[p].hash != h,
            decreases n - i,
        {
            if self.pending[i].hash == h {
                return Some(i);
            }
            i = i + 1;
        }
        None
    }

    fn find_resolved(&self, h: u64) -> (b: bool)
        ensures
            b == self.is_resolved(h),
    {
        let n = self.resolved.len();
        let mut i: usize = 0;
        while i < n
            invariant
                n == self.resolved@.len(),
                i <= n,
                forall|p: int| 0 <= p < i ==> self.resolved@[p] != h,
            decreases n - i,
        {
            if self.resolved[i] == h {
                return true;
            }
            i = i + 1;
        }
        false
    }

    /// Asks for the missing ancestor `h`.  Returns whether a network
    /// fetch must actually go out: exactly when no fetch for `h` is
    /// outstanding and `h` has not already been delivered — a repeated
    /// or already-resolved request is deduplicated.
    pub fn request(&mut self, h: u64) -> (fetch: bool)
        requires
            old(self).wf(),
        ensures
            final(self).wf(),
            fetch == (!old(self).is_pending(h) && !old(self).is_resolved(h)),
            fetch ==> final(self).pending@ == old(self).pending@.push(
                PendingFetch { hash: h, retries: 0 },
            ),
            !fetch ==> final(self).pending@ == old(self).pending@,
            final(self).is_pending(h) || final(self).is_resolved(h),
            final(self).resolved@ == old(self).resolved@,
            final(self).buffered@ == old(self).buffered@,
            final(self).retry_delay == old(self).retry_delay,
            final(self).max_retries == old(self).max_retries,
    {
        if self.find_pending(h).is_some() {
            proof {
                assert(self.is_pending(h));
            }
            return false;
        }
        if self.find_resolved(h) {
            return false;
        }
        self.pending.push(PendingFetch { hash: h, retries: 0 });
        proof {
            let n = self.pending@.len() - 1;
            assert(self.pending@[n].hash == h);
            assert(self.is_pending(h));
        }
        true
    }

    /// Buffers a block whose parent is missing.  A block already
    /// buffered under the same hash is dropped.
    pub fn buffer(&mut self, b: Block) -> (added: bool)
        requires
            old(self).wf(),
        ensures
            final(self).wf(),
            added == !old(self).has_buffered(b.hash),
            added ==> final(self).buffered@ == old(self).buffered@.push(b),
            !added ==> final(self).buffered@ == old(self).buffered@,
            final(self).pending@ == old(self).pending@,
            final(self).resolved@ == old(self).resolved@,
            final(self).retry_delay == old(self).retry_delay,
            final(self).max_retries == old(self).max_retries,
    {
        let n = self.buffered.len();
        let mut i: usize = 0;
        while i < n
            invariant
                *self == *old(self),
                self.wf(),
                n == self.buffered@.len(),
                i <= n,
                forall|p: int| 0 <= p < i ==> self.buffered@[p].hash != b.hash,
            decreases n - i,
        {
            if self.buffered[i].hash == b.hash {
                proof {
                    assert(self.has_buffered(b.hash));
                }
                return false;
            }
            i = i + 1;
        }
        self.buffered.push(b);
        true
    }

    /// A block is already buffered under hash `h`.
    pub open spec fn has_buffered(self, h: u64) -> bool {
        exists|i: int| 0 <= i < self.buffered@.len() && self.buffered@[i].hash == h
    }

    /// The missing block with hash `h` has arrived: the fetch (if any)
    /// is closed, `h` is marked resolved, and every buffered descendant
    /// of `h` is handed back, in arrival order, for replay.
    pub fn deliver(&mut self, h: u64) -> (children: Vec<Block>)
        requires
            old(self).wf(),
        ensures
            final(self).wf(),
            final(self).is_resolved(h),
            !final(self).is_pending(h),
            children@ == waiting_for(old(self).buffered@, h),
            final(self).buffered@ == still_waiting(old(self).buffered@, h),
            final(self).retry_delay == old(self).retry_delay,
            final(self).max_retries == old(self).max_retries,
            forall|x: u64| old(self).is_resolved(x) ==> final(self).is_resolved(x),
    {
        match self.find_pending(h) {
            Some(i) => {
                self.pending.remove(i);
                proof {
                    assert forall|j: int|
                        0 <= j < self.pending@.len() implies self.pending@[j].hash != h by {
                        if j < i {
                            assert(self.pending@[j] == old(self).pending@[j]);
                        } else {
                            assert(self.pending@[j] == old(self).pending@[j + 1]);
                        }
                    }
                }
            },
            None => {},
        }
        if !self.find_resolved(h) {
            self.resolved.push(h);
            proof {
                assert(self.resolved@.last() == h);
                assert(self.resolved@.contains(h));
            }
        }
        proof {
            assert(self.is_resolved(h));
            assert(!self.is_pending(h));
            assert forall|x: u64| old(self).is_resolved(x) implies self.is_resolved(x) by {
                let i = choose|i: int|
                    0 <= i < old(self).resolved@.len() && old(self).resolved@[i] == x;
                assert(self.resolved@[i] == x);
            }
        }
        let ghost full = self.buffered@;
        let mut rest: Vec<Block> = Vec::new();
        core::mem::swap(&mut self.buffered, &mut rest);
        let mut children: Vec<Block> = Vec::new();
        let mut kept: Vec<Block> = Vec::new();
        while rest.len() > 0
            invariant
                rest@.len() <= full.len(),
                rest@ == full.subrange(0, rest@.len() as int),
                children@ == waiting_for(full.subrange(rest@.len() as int, full.len() as int), h),
                kept@ == still_waiting(full.subrange(rest@.len() as int, full.len() as int), h),
                self.wf(),
                self.is_resolved(h),
                !self.is_pending(h),
                forall|x: u64| old(self).is_resolved(x) ==> self.is_resolved(x),
                self.retry_delay == old(self).retry_delay,
                self.max_retries == old(self).max_retries,
            decreases rest@.len(),
        {
            let ghost j = rest@.len() - 1;
            let b = rest.pop().unwrap();
            proof {
                assert(b == full[j]);
                let suffix = full.subrange(j, full.len() as int);
                assert(suffix[0] == full[j]);
                assert(suffix.drop_first() =~= full.subrange(j + 1, full.len() as int));
                assert(rest@ =~= full.subrange(0, j));
            }
            if b.qc.hash == h {
                children.insert(0, b);
                proof {
                    let suffix = full.subrange(j, full.len() as int);
                    assert(children@ =~= waiting_for(suffix, h));
                }
            } else {
                kept.insert(0, b);
                proof {
                    let suffix = full.subrange(j, full.len() as int);
                    assert(kept@ =~= still_waiting(suffix, h));
                }
            }
        }
        proof {
            assert(full.subrange(0, full.len() as int) =~= full);
        }
        self.buffered = kept;
        children
    }

    /// The retry timer for the fetch of `h` fired.  Returns whether the
    /// fetch should be re-sent: true while the bounded retry budget
    /// lasts; once it is exhausted the fetch is abandoned silently.
    pub fn retry(&mut self, h: u64) -> (again: bool)
        requires
            old(self).wf(),
        ensures
            final(self).wf(),
            again == (old(self).is_pending(h) && exists|i: int|
                0 <= i < old(self).pending@.len() && old(self).pending@[i].hash == h
                    && old(self).pending@[i].retries < old(self).max_retries),
            !old(self).is_pending(h) ==> final(self).pending@ == old(self).pending@,
            final(self).resolved@ == old(self).resolved@,
            final(self).buffered@ == old(self).buffered@,
            final(self).retry_delay == old(self).retry_delay,
            final(self).max_retries == old(self).max_retries,
    {
        match self.find_pending(h) {
            Some(i) => {
                let entry = self.pending[i];
                if entry.retries < self.max_retries {
                    self.pending.set(i, PendingFetch { hash: h, retries: entry.retries + 1 });
                    proof {
                        assert forall|p: int, q: int|
                            0 <= p < q < self.pending@.len() implies self.pending@[p].hash
                            != self.pending@[q].hash by {
                            assert(old(self).pending@[p].hash != old(self).pending@[q].hash);
                        }
                        assert(old(self).pending@[i as int].hash == h);
                    }
                    true
                } else {
                    self.pending.remove(i);
                    proof {
                        assert forall|p: int, q: int|
                            0 <= p < q < self.pending@.len() implies self.pending@[p].hash
                            != self.pending@[q].hash by {
                        }
                        assert(old(self).pending@[i as int].hash == h);
                        assert forall|k: int|
                            0 <= k < old(self).pending@.len() && old(self).pending@[k].hash == h
                                implies !(old(self).pending@[k].retries < old(
                            self,
                        ).max_retries) by {
                            assert(k == i);
                        }
                    }
                    false
                }
            },
            None => false,
        }
    }
}

/// Synchronizer idempotence law: once an ancestor has been requested —
/// `request` leaves it pending or resolved, and `deliver` keeps it
/// resolved — a further request for it never triggers another network
/// fetch.  The hypothesis on `fetch` is exactly what the contract of
/// [`Synchronizer::request`] says its result is.
pub proof fn theorem_request_idempotent(s: Synchronizer, h: u64, fetch: bool)
    requires
        s.is_pending(h) || s.is_resolved(h),
        fetch == (!s.is_pending(h) && !s.is_resolved(h)),
    ensures
        !fetch,
{
}

} // verus!

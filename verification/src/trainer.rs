//! Schedule of the background training loop.
//!
//! The loop itself runs on an application thread: it locks the network,
//! performs one training step, and records the returned error sample. This
//! module decides, from the iteration count alone, when that thread must
//! poll its cancellation channel and flush the locally batched error samples
//! into the shared history, so that the lock on the history is taken once
//! per batch rather than once per iteration.

use vstd::prelude::*;

use crate::math::Scalar;

verus! {

/// How many training iterations pass between two cancellation polls (and
/// batch flushes).
pub const FLUSH_INTERVAL: u64 = 200;

/// The iteration counter of the training loop together with the error
/// samples batched locally since the last flush.
pub struct TrainerSchedule {
    iterations: u64,
    pending: Vec<Scalar>,
}

impl TrainerSchedule {
    /// How many iterations have begun.
    pub closed spec fn count(&self) -> int {
        self.iterations as int
    }

    /// The error samples batched since the last flush, oldest first.
    pub closed spec fn pending_view(&self) -> Seq<Scalar> {
        self.pending@
    }

    /// A fresh schedule: no iterations begun, nothing batched.
    pub fn new() -> (r: TrainerSchedule)
        ensures
            r.count() == 0,
            r.pending_view().len() == 0,
    {
        TrainerSchedule { iterations: 0, pending: Vec::new() }
    }

    /// Begins the next iteration and says whether this is one of the bounded
    /// intervals at which the loop must poll for cancellation and flush its
    /// batch: every `FLUSH_INTERVAL`-th iteration. The counter wraps to zero
    /// at its top, so the endless loop needs no bound.
    pub fn begin_iteration(&mut self) -> (flush: bool)
        ensures
            final(self).count() == (if old(self).count() == u64::MAX {
                0int
            } else {
                old(self).count() + 1
            }),
            final(self).pending_view() == old(self).pending_view(),
            flush <==> final(self).count() % (FLUSH_INTERVAL as int) == 0,
    {
        if self.iterations == u64::MAX {
            self.iterations = 0;
        } else {
            self.iterations = self.iterations + 1;
        }
        self.iterations % FLUSH_INTERVAL == 0
    }

    /// Batches one error sample for the next flush.
    pub fn record_error(&mut self, sample: Scalar)
        ensures
            final(self).count() == old(self).count(),
            final(self).pending_view() == old(self).pending_view().push(sample),
    {
        self.pending.push(sample);
    }

    /// Hands the batched samples over, oldest first, and empties the batch;
    /// the caller appends them to the shared history in this order.
    pub fn take_pending(&mut self) -> (r: Vec<Scalar>)
        ensures
            final(self).count() == old(self).count(),
            final(self).pending_view().len() == 0,
            r@ == old(self).pending_view(),
    {
        let mut out: Vec<Scalar> = Vec::new();
        core::mem::swap(&mut out, &mut self.pending);
        out
    }
}

} // verus!

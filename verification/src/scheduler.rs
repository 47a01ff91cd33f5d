//! The expiration scheduler's bookkeeping.
//!
//! Every answered request leaves behind one batch: the heights it touched,
//! due for an eviction check a fixed delay later.  The scheduler holds the
//! pending batches and, each time the loop wakes, hands over exactly those
//! whose delay has elapsed; the sweep itself then decides, per entry, by
//! the entry's own deadline.  The check delay is well below the entry
//! time-to-live, so a batch's first sweep never evicts what its own
//! request just cached.

use vstd::prelude::*;

use crate::service::{TraceFilterCache, CACHE_EXPIRATION_SECS, SWEEP_DELAY_SECS};

verus! {

/// One pending eviction check: the heights one request touched, and the
/// tick at which they are due to be checked.
pub struct ExpirationBatch {
    pub due: u64,
    pub heights: Vec<u32>,
}

/// The model of a pending batch.
#[verifier::ext_equal]
pub ghost struct BatchModel {
    pub due: u64,
    pub heights: Seq<u32>,
}

impl View for ExpirationBatch {
    type V = BatchModel;

    open spec fn view(&self) -> BatchModel {
        BatchModel { due: self.due, heights: self.heights@ }
    }
}

/// The models of a sequence of batches, in order.
pub open spec fn batch_models(s: Seq<ExpirationBatch>) -> Seq<BatchModel> {
    Seq::new(s.len(), |i: int| s[i]@)
}

/// The batches of `s` already due at `now`, in order.
pub open spec fn due_batches(s: Seq<BatchModel>, now: u64) -> Seq<BatchModel>
    decreases s.len(),
{
    if s.len() == 0 {
        Seq::empty()
    } else {
        let rest = due_batches(s.drop_last(), now);
        if s.last().due <= now {
            rest.push(s.last())
        } else {
            rest
        }
    }
}

/// The batches of `s` not yet due at `now`, in order.
pub open spec fn pending_batches(s: Seq<BatchModel>, now: u64) -> Seq<BatchModel>
    decreases s.len(),
{
    if s.len() == 0 {
        Seq::empty()
    } else {
        let rest = pending_batches(s.drop_last(), now);
        if s.last().due > now {
            rest.push(s.last())
        } else {
            rest
        }
    }
}

/// The tick a batch scheduled at `now` comes due.
pub open spec fn spec_batch_due(now: u64) -> u64 {
    if now + SWEEP_DELAY_SECS <= u64::MAX {
        (now + SWEEP_DELAY_SECS) as u64
    } else {
        u64::MAX
    }
}

/// The pending eviction checks.
pub struct ExpirationScheduler {
    pub batches: Vec<ExpirationBatch>,
}

impl View for ExpirationScheduler {
    type V = Seq<BatchModel>;

    open spec fn view(&self) -> Seq<BatchModel> {
        batch_models(self.batches@)
    }
}

/// Copies a vector of heights, element by element.
fn clone_heights(v: &Vec<u32>) -> (r: Vec<u32>)
    ensures
        r@ == v@,
{
    let mut out: Vec<u32> = Vec::new();
    let mut i: usize = 0;
    while i < v.len()
        invariant
            i <= v.len(),
            out@ == v@.take(i as int),
        decreases v.len() - i,
    {
        out.push(v[i]);
        i = i + 1;
        proof {
            assert(out@ =~= v@.take(i as int));
        }
    }
    proof {
        assert(v@.take(v.len() as int) =~= v@);
    }
    out
}

impl ExpirationScheduler {
    /// A scheduler with nothing pending.
    pub fn new() -> (r: ExpirationScheduler)
        ensures
            r@.len() == 0,
    {
        ExpirationScheduler { batches: Vec::new() }
    }

    /// Registers one answered request's range for an eviction check
    /// `SWEEP_DELAY_SECS` ticks from `now`.
    pub fn schedule(&mut self, from: u32, to: u32, now: u64)
        requires
            from <= to,
        ensures
            final(self)@.len() == old(self)@.len() + 1,
            final(self)@.drop_last() == old(self)@,
            final(self)@.last().due == spec_batch_due(now),
            final(self)@.last().heights.len() == to - from + 1,
            forall|j: int|
                0 <= j < final(self)@.last().heights.len() ==> final(self)@.last().heights[j]
                    == from + j,
    {
        let due: u64 = if now <= u64::MAX - SWEEP_DELAY_SECS {
            now + SWEEP_DELAY_SECS
        } else {
            u64::MAX
        };
        let heights = TraceFilterCache::expiration_batch(from, to);
        let ghost pre = self@;
        self.batches.push(ExpirationBatch { due, heights });
        proof {
            assert(self@.drop_last() =~= pre);
        }
    }

    /// Removes and returns the batches due at `now`, oldest first; the
    /// batches not yet due stay, in their order.
    pub fn take_due(&mut self, now: u64) -> (r: Vec<ExpirationBatch>)
        ensures
            batch_models(r@) == due_batches(old(self)@, now),
            final(self)@ == pending_batches(old(self)@, now),
    {
        let ghost whole = self@;
        let mut due: Vec<ExpirationBatch> = Vec::new();
        let mut pending: Vec<ExpirationBatch> = Vec::new();
        let mut i: usize = 0;
        while i < self.batches.len()
            invariant
                i <= self.batches.len(),
                whole == self@,
                batch_models(due@) == due_batches(whole.take(i as int), now),
                batch_models(pending@) == pending_batches(whole.take(i as int), now),
            decreases self.batches.len() - i,
        {
            proof {
                assert(whole.take(i as int + 1).drop_last() =~= whole.take(i as int));
                assert(whole.take(i as int + 1).last() == self.batches@[i as int]@);
            }
            let b = &self.batches[i];
            let copy = ExpirationBatch { due: b.due, heights: clone_heights(&b.heights) };
            proof {
                assert(copy@ =~= self.batches@[i as int]@);
            }
            if b.due <= now {
                let ghost prev = due@;
                due.push(copy);
                proof {
                    assert(batch_models(due@) =~= batch_models(prev).push(
                        self.batches@[i as int]@,
                    ));
                }
            } else {
                let ghost prev = pending@;
                pending.push(copy);
                proof {
                    assert(batch_models(pending@) =~= batch_models(prev).push(
                        self.batches@[i as int]@,
                    ));
                }
            }
            i = i + 1;
        }
        proof {
            assert(whole.take(self.batches@.len() as int) =~= whole);
        }
        self.batches = pending;
        due
    }
}

/// The check interval is decoupled from the retention period: a batch
/// scheduled when its request completes comes due strictly before any
/// entry that request stored reaches its deadline, so a batch's first
/// sweep retains what its own request just cached.
pub proof fn lemma_first_sweep_retains(now: u64)
    requires
        now + CACHE_EXPIRATION_SECS <= u64::MAX,
    ensures
        spec_batch_due(now) < TraceFilterCache::entry_deadline(now),
{
}

} // verus!

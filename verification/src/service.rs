//! The per-request decisions of the service loop.
//!
//! The loop itself — waiting on the two event sources, replaying blocks,
//! sleeping before a sweep — lives outside the verified core.  What it does
//! is decided here: `advance_request` names the next step of a request
//! (reject it, load one missing block, or respond from the cache),
//! `apply_load_result` folds one replay's outcome into the cache or turns
//! its failure into the caller's error, and `sweep` evicts what a batch's
//! deadline check finds expired.

use vstd::prelude::*;

use crate::cache::{traces_in_range, CacheBlockModel, CacheStore};
use crate::filter::{engine_result, filter_and_paginate};
use crate::types::{
    models_of, FilterRequest, FilterResponse, LoadError, RequestError, TraceModel,
    TransactionTrace,
};

verus! {

/// How long a cached block lives, in service ticks (seconds), from the
/// moment it is stored.
pub const CACHE_EXPIRATION_SECS: u64 = 600;

/// How long the shell waits after answering a request before it hands the
/// request's heights back for an expiration check.
pub const SWEEP_DELAY_SECS: u64 = 60;

/// The widest block range one request may ask for.  Nothing upstream bounds
/// a range, but each uncached height costs one replay, so a cap keeps one
/// request from stalling the service indefinitely; a wider request is
/// rejected as invalid.
pub const MAX_RANGE_BLOCKS: u32 = 4096;

impl FilterRequest {
    /// The first height of the requested range; absent means block 0.
    pub open spec fn spec_from(self) -> u32 {
        match self.from_block {
            Some(f) => f,
            None => 0u32,
        }
    }

    /// The last height of the requested range; meaningful only when present.
    pub open spec fn spec_to(self) -> u32 {
        match self.to_block {
            Some(t) => t,
            None => 0u32,
        }
    }

    /// Whether the request names a range the service accepts: `to_block`
    /// present, not inverted, and no wider than `MAX_RANGE_BLOCKS` heights.
    pub open spec fn range_valid(self) -> bool {
        match self.to_block {
            Some(t) => self.spec_from() <= t && t - self.spec_from() < MAX_RANGE_BLOCKS,
            None => false,
        }
    }

    /// The inclusive height range this request asks for, or the invalid
    /// range error.  `to_block` is required: its absence is rejected, never
    /// assumed away.
    pub fn resolve_range(&self) -> (r: Result<(u32, u32), RequestError>)
        ensures
            match r {
                Ok((f, t)) => self.range_valid() && f == self.spec_from() && self.to_block
                    == Some(t),
                Err(e) => !self.range_valid() && e == RequestError::InvalidRange,
            },
    {
        let from: u32 = match self.from_block {
            Some(f) => f,
            None => 0,
        };
        match self.to_block {
            Some(to) => {
                if from <= to && to - from < MAX_RANGE_BLOCKS {
                    Ok((from, to))
                } else {
                    Err(RequestError::InvalidRange)
                }
            },
            None => Err(RequestError::InvalidRange),
        }
    }
}

/// What the service loop should do next for a request.
pub enum ServiceAction {
    /// The request's range has this uncached height: replay that block and
    /// hand the outcome to `apply_load_result`.
    LoadBlock(u32),
    /// Every height of the range is cached: send this reply.
    Respond(FilterResponse),
    /// The request is malformed: send this error without touching anything.
    Reject(RequestError),
}

/// The trace filter cache service: the cache store together with the
/// decisions the service loop takes on it.
pub struct TraceFilterCache {
    pub store: CacheStore,
}

impl TraceFilterCache {
    /// The service invariant: the store is well formed.
    pub open spec fn wf(self) -> bool {
        self.store.wf()
    }

    /// Whether the cache holds an entry for height `h`.
    pub open spec fn has_block(self, h: u32) -> bool {
        self.store.has_height(h)
    }

    /// Every cached trace of the range, flattened in ascending height order.
    pub open spec fn cached_traces(self, from: u32, to: u32) -> Seq<TraceModel> {
        traces_in_range(self.store@, from, to)
    }

    /// The reply owed to a request over the given resolved range: the
    /// cached traces of the range, filtered by the request's address lists
    /// and sliced by its offset and count.
    pub open spec fn response_models(self, req: FilterRequest, from: u32, to: u32) -> Seq<
        TraceModel,
    > {
        engine_result(
            self.cached_traces(from, to),
            req.from_address@,
            req.to_address@,
            req.after as nat,
            req.count as nat,
        )
    }

    /// A service over an empty cache.
    pub fn new() -> (r: TraceFilterCache)
        ensures
            r.wf(),
            r.store@.len() == 0,
            forall|h: u32| !r.has_block(h),
    {
        TraceFilterCache { store: CacheStore::new() }
    }

    /// The lowest height of `[from, to]` that is not cached yet, if any.
    pub fn next_missing(&self, from: u32, to: u32) -> (r: Option<u32>)
        requires
            from <= to,
        ensures
            match r {
                Some(h) => from <= h <= to && !self.has_block(h) && forall|g: u32|
                    from <= g < h ==> self.has_block(g),
                None => forall|g: u32| from <= g <= to ==> self.has_block(g),
            },
    {
        let n: u64 = to as u64 - from as u64 + 1;
        let mut i: u64 = 0;
        while i < n
            invariant
                from <= to,
                n == to - from + 1,
                i <= n,
                forall|g: u32| from <= g < from + i ==> self.has_block(g),
            decreases n - i,
        {
            let h: u32 = (from as u64 + i) as u32;
            if !self.store.contains(h) {
                return Some(h);
            }
            i = i + 1;
        }
        None
    }

    /// The deadline a block stored at `now` receives.
    pub open spec fn entry_deadline(now: u64) -> u64 {
        if now + CACHE_EXPIRATION_SECS <= u64::MAX {
            (now + CACHE_EXPIRATION_SECS) as u64
        } else {
            u64::MAX
        }
    }

    /// Caches `traces` as block `height`, to live `CACHE_EXPIRATION_SECS`
    /// ticks from `now`.  Every other entry is untouched.
    pub fn insert_block(&mut self, height: u32, traces: Vec<TransactionTrace>, now: u64)
        requires
            old(self).wf(),
            forall|k: int| 0 <= k < traces@.len() ==> (#[trigger] traces@[k])@.block_number
                == height,
        ensures
            final(self).wf(),
            final(self).has_block(height),
            final(self).store.entry(height) == (CacheBlockModel {
                height,
                expiration: Self::entry_deadline(now),
                traces: models_of(traces@),
            }),
            forall|g: u32| g != height ==> final(self).has_block(g) == old(self).has_block(g),
            forall|g: u32|
                g != height && final(self).has_block(g) ==> final(self).store.entry(g) == old(
                    self,
                ).store.entry(g),
    {
        let expiration: u64 = if now <= u64::MAX - CACHE_EXPIRATION_SECS {
            now + CACHE_EXPIRATION_SECS
        } else {
            u64::MAX
        };
        self.store.put(height, expiration, traces);
    }

    /// Folds one block load's outcome into the service: traces are cached
    /// under their height; a failure becomes the caller's error, names the
    /// failing height, and leaves the cache exactly as it was — no entry is
    /// left partially populated.
    pub fn apply_load_result(
        &mut self,
        height: u32,
        loaded: Result<Vec<TransactionTrace>, LoadError>,
        now: u64,
    ) -> (r: Option<RequestError>)
        requires
            old(self).wf(),
            match loaded {
                Ok(ts) => forall|k: int|
                    0 <= k < ts@.len() ==> (#[trigger] ts@[k])@.block_number == height,
                Err(_) => true,
            },
        ensures
            final(self).wf(),
            match loaded {
                Ok(ts) => {
                    &&& r is None
                    &&& final(self).has_block(height)
                    &&& final(self).store.entry(height) == (CacheBlockModel {
                        height,
                        expiration: Self::entry_deadline(now),
                        traces: models_of(ts@),
                    })
                    &&& forall|g: u32|
                        g != height ==> final(self).has_block(g) == old(self).has_block(g)
                    &&& forall|g: u32|
                        g != height && final(self).has_block(g) ==> final(self).store.entry(g)
                            == old(self).store.entry(g)
                },
                Err(e) => {
                    &&& r == Some(RequestError::Upstream { height, cause: e })
                    &&& *final(self) == *old(self)
                },
            },
    {
        match loaded {
            Ok(ts) => {
                self.insert_block(height, ts, now);
                None
            },
            Err(e) => Some(RequestError::Upstream { height, cause: e }),
        }
    }

    /// The reply for a request over its resolved range: the cached traces of
    /// the range, address-filtered, then sliced by `after` and `count`.
    pub fn serve(&self, req: &FilterRequest, from: u32, to: u32) -> (r: FilterResponse)
        ensures
            models_of(r.traces@) == self.response_models(*req, from, to),
    {
        let all = self.store.collect_range(from, to);
        let traces = filter_and_paginate(
            &all,
            &req.from_address,
            &req.to_address,
            req.after,
            req.count,
        );
        FilterResponse { traces }
    }

    /// What the service does next for `req`: reject a malformed range, ask
    /// for the lowest missing height of the range, or — once nothing is
    /// missing — respond from the cache alone.
    pub fn advance_request(&self, req: &FilterRequest) -> (r: ServiceAction)
        requires
            self.wf(),
        ensures
            match r {
                ServiceAction::Reject(e) => !req.range_valid() && e == RequestError::InvalidRange,
                ServiceAction::LoadBlock(h) => {
                    &&& req.range_valid()
                    &&& req.spec_from() <= h <= req.spec_to()
                    &&& !self.has_block(h)
                    &&& forall|g: u32| req.spec_from() <= g < h ==> self.has_block(g)
                },
                ServiceAction::Respond(resp) => {
                    &&& req.range_valid()
                    &&& forall|g: u32|
                        req.spec_from() <= g <= req.spec_to() ==> self.has_block(g)
                    &&& models_of(resp.traces@) == self.response_models(
                        *req,
                        req.spec_from(),
                        req.spec_to(),
                    )
                },
            },
    {
        match req.resolve_range() {
            Err(e) => ServiceAction::Reject(e),
            Ok((from, to)) => match self.next_missing(from, to) {
                Some(h) => ServiceAction::LoadBlock(h),
                None => ServiceAction::Respond(self.serve(req, from, to)),
            },
        }
    }

    /// The heights a finished request hands to the expiration scheduler:
    /// its whole resolved range, in ascending order.
    pub fn expiration_batch(from: u32, to: u32) -> (r: Vec<u32>)
        requires
            from <= to,
        ensures
            r@.len() == to - from + 1,
            forall|j: int| 0 <= j < r@.len() ==> r@[j] == from + j,
    {
        let n: u64 = to as u64 - from as u64 + 1;
        let mut out: Vec<u32> = Vec::new();
        let mut i: u64 = 0;
        while i < n
            invariant
                from <= to,
                n == to - from + 1,
                i <= n,
                out@.len() == i,
                forall|j: int| 0 <= j < i ==> out@[j] == from + j,
            decreases n - i,
        {
            out.push((from as u64 + i) as u32);
            i = i + 1;
        }
        out
    }

    /// One expiration wake-up: checks each height of the batch and removes
    /// the entries whose deadline has passed.  An entry checked before its
    /// deadline is retained untouched, as is every height outside the batch.
    pub fn sweep(&mut self, heights: &Vec<u32>, now: u64)
        requires
            old(self).wf(),
        ensures
            final(self).wf(),
            forall|g: u32| final(self).has_block(g) == (old(self).has_block(g) && !(
            heights@.contains(g) && old(self).store.entry(g).expiration <= now)),
            forall|g: u32|
                final(self).has_block(g) ==> final(self).store.entry(g) == old(self).store.entry(
                    g,
                ),
    {
        self.store.sweep(heights, now);
    }
}

/// A request with both address lists empty filters nothing away: once its
/// offset is zero and its count covers the range, the reply owed is every
/// cached trace of the range, exactly as the range scan flattens them —
/// ascending by height, each block's traces in execution order.
pub proof fn lemma_unfiltered_response_is_whole_range(
    c: TraceFilterCache,
    req: FilterRequest,
    from: u32,
    to: u32,
)
    requires
        req.from_address@.len() == 0,
        req.to_address@.len() == 0,
        req.after == 0,
        req.count >= c.cached_traces(from, to).len(),
    ensures
        c.response_models(req, from, to) == c.cached_traces(from, to),
{
    let s = c.cached_traces(from, to);
    crate::filter::lemma_empty_filter_keeps_all(s, req.from_address@, req.to_address@);
    assert(crate::filter::paginate(s, 0, req.count as nat) =~= s);
}

/// Identical requests read the same cache state the same way: the reply a
/// request is owed is a function of the cache contents and the request
/// alone, so two requests with equal fields against equal cache contents
/// are owed equal replies.  Together with `advance_request`, which responds
/// without asking for any load once every height of the range is cached,
/// and `serve`, which never changes the store, this is the idempotence of a
/// repeated request: the first fills the range, the second is answered from
/// the cache alone, equal to the first.
pub proof fn lemma_identical_requests_equal(
    c1: TraceFilterCache,
    c2: TraceFilterCache,
    req: FilterRequest,
    from: u32,
    to: u32,
)
    requires
        c1.store@ == c2.store@,
    ensures
        c1.response_models(req, from, to) == c2.response_models(req, from, to),
{
}

} // verus!

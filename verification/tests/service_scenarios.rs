//! End-to-end scenarios for the trace filter cache service: a fake loader
//! plays the replay engine, and the tests drive the service's decisions the
//! way the service loop does.

use trace_filter_cache::service::{ServiceAction, TraceFilterCache, CACHE_EXPIRATION_SECS};
use trace_filter_cache::types::{
    Address, FilterRequest, Hash256, LoadError, RequestError, TraceAction, TransactionTrace,
};

fn addr(n: u8) -> Address {
    Address { high: n as u32, low: n as u128 }
}

fn hash(n: u8) -> Hash256 {
    Hash256 { high: n as u128, low: n as u128 }
}

fn trace(height: u32, position: u32, from: Address, to: Address) -> TransactionTrace {
    TransactionTrace {
        action: TraceAction::Call { from, to, value: 1, gas: 21000, input: vec![position as u8] },
        block_hash: hash(height as u8),
        block_number: height,
        transaction_hash: hash(position as u8),
        transaction_position: position,
    }
}

struct FakeLoader {
    blocks: Vec<(u32, Result<Vec<TransactionTrace>, LoadError>)>,
    calls: usize,
}

impl FakeLoader {
    fn load(&mut self, height: u32) -> Result<Vec<TransactionTrace>, LoadError> {
        self.calls += 1;
        for (h, outcome) in &self.blocks {
            if *h == height {
                return outcome.clone();
            }
        }
        Err(LoadError::BlockNotFound { height })
    }
}

fn run_request(
    svc: &mut TraceFilterCache,
    req: &FilterRequest,
    loader: &mut FakeLoader,
    now: u64,
) -> Result<Vec<TransactionTrace>, RequestError> {
    loop {
        match svc.advance_request(req) {
            ServiceAction::Reject(e) => return Err(e),
            ServiceAction::LoadBlock(h) => {
                let outcome = loader.load(h);
                if let Some(e) = svc.apply_load_result(h, outcome, now) {
                    return Err(e);
                }
            }
            ServiceAction::Respond(resp) => return Ok(resp.traces),
        }
    }
}

fn request(from: Option<u32>, to: Option<u32>, after: u32, count: u32) -> FilterRequest {
    FilterRequest {
        from_block: from,
        to_block: to,
        from_address: Vec::new(),
        to_address: Vec::new(),
        after,
        count,
    }
}

#[test]
fn single_block_request_fills_cache_and_second_hits_it() {
    let mut svc = TraceFilterCache::new();
    let traces = vec![
        trace(10, 0, addr(1), addr(2)),
        trace(10, 1, addr(3), addr(4)),
        trace(10, 2, addr(5), addr(6)),
    ];
    let mut loader = FakeLoader { blocks: vec![(10, Ok(traces.clone()))], calls: 0 };
    let req = request(Some(10), Some(10), 0, 100);

    let first = run_request(&mut svc, &req, &mut loader, 0).unwrap();
    assert_eq!(first, traces);
    assert_eq!(loader.calls, 1);
    assert!(svc.store.contains(10));

    let second = run_request(&mut svc, &req, &mut loader, 1).unwrap();
    assert_eq!(second, traces);
    assert_eq!(loader.calls, 1);
}

#[test]
fn pagination_across_three_blocks() {
    // Heights 5, 6 and 7 together yield five traces after filtering;
    // skipping two and taking one returns exactly the third.
    let a = trace(5, 0, addr(1), addr(1));
    let b = trace(5, 1, addr(2), addr(2));
    let c = trace(6, 0, addr(3), addr(3));
    let d = trace(7, 0, addr(4), addr(4));
    let e = trace(7, 1, addr(5), addr(5));
    let mut loader = FakeLoader {
        blocks: vec![
            (5, Ok(vec![a.clone(), b.clone()])),
            (6, Ok(vec![c.clone()])),
            (7, Ok(vec![d.clone(), e.clone()])),
        ],
        calls: 0,
    };
    let mut svc = TraceFilterCache::new();
    let req = request(Some(5), Some(7), 2, 1);
    let got = run_request(&mut svc, &req, &mut loader, 0).unwrap();
    assert_eq!(got, vec![c]);
}

#[test]
fn missing_to_block_is_invalid_and_touches_nothing() {
    let mut svc = TraceFilterCache::new();
    let mut loader = FakeLoader { blocks: vec![(0, Ok(vec![]))], calls: 0 };
    let req = request(Some(3), None, 0, 10);
    let got = run_request(&mut svc, &req, &mut loader, 0);
    assert_eq!(got, Err(RequestError::InvalidRange));
    assert_eq!(loader.calls, 0);
    assert_eq!(svc.store.entries.len(), 0);
}

#[test]
fn inverted_range_is_invalid() {
    let mut svc = TraceFilterCache::new();
    let mut loader = FakeLoader { blocks: vec![], calls: 0 };
    let req = request(Some(9), Some(3), 0, 10);
    assert_eq!(
        run_request(&mut svc, &req, &mut loader, 0),
        Err(RequestError::InvalidRange)
    );
    assert_eq!(loader.calls, 0);
}

#[test]
fn oversized_range_is_invalid() {
    let mut svc = TraceFilterCache::new();
    let mut loader = FakeLoader { blocks: vec![], calls: 0 };
    let req = request(Some(0), Some(1_000_000), 0, 10);
    assert_eq!(
        run_request(&mut svc, &req, &mut loader, 0),
        Err(RequestError::InvalidRange)
    );
    assert_eq!(loader.calls, 0);
}

#[test]
fn loader_failure_aborts_request_and_leaves_no_partial_entry() {
    // Height 4 loads, height 5 fails: the request aborts at 5, height 6 is
    // never attempted, and 5 stays absent while 4 stays cached.
    let mut loader = FakeLoader {
        blocks: vec![
            (4, Ok(vec![trace(4, 0, addr(1), addr(1))])),
            (
                5,
                Err(LoadError::ReplayFailed { height: 5, detail: "state root mismatch".to_string() }),
            ),
            (6, Ok(vec![trace(6, 0, addr(2), addr(2))])),
        ],
        calls: 0,
    };
    let mut svc = TraceFilterCache::new();
    let req = request(Some(4), Some(6), 0, 10);
    let got = run_request(&mut svc, &req, &mut loader, 0);
    assert_eq!(
        got,
        Err(RequestError::Upstream {
            height: 5,
            cause: LoadError::ReplayFailed { height: 5, detail: "state root mismatch".to_string() },
        })
    );
    assert_eq!(loader.calls, 2);
    assert!(svc.store.contains(4));
    assert!(!svc.store.contains(5));
    assert!(!svc.store.contains(6));

    // The failed height stays eligible for retry on a later request.
    loader.blocks[1].1 = Ok(vec![trace(5, 0, addr(3), addr(3))]);
    let retried = run_request(&mut svc, &req, &mut loader, 1).unwrap();
    assert_eq!(retried.len(), 3);
    assert_eq!(loader.calls, 4);
}

#[test]
fn eviction_respects_deadlines_and_forces_reload() {
    let mut loader = FakeLoader {
        blocks: vec![(10, Ok(vec![trace(10, 0, addr(1), addr(1))]))],
        calls: 0,
    };
    let mut svc = TraceFilterCache::new();
    let req = request(Some(10), Some(10), 0, 10);
    run_request(&mut svc, &req, &mut loader, 0).unwrap();
    assert_eq!(loader.calls, 1);

    let batch = TraceFilterCache::expiration_batch(10, 10);
    assert_eq!(batch, vec![10]);

    // A sweep just before the deadline retains the entry.
    svc.sweep(&batch, CACHE_EXPIRATION_SECS - 1);
    assert!(svc.store.contains(10));

    // A later sweep at the deadline removes it.
    svc.sweep(&batch, CACHE_EXPIRATION_SECS);
    assert!(!svc.store.contains(10));

    // The next request for that height replays the block anew.
    run_request(&mut svc, &req, &mut loader, CACHE_EXPIRATION_SECS + 1).unwrap();
    assert_eq!(loader.calls, 2);
}

#[test]
fn sweep_leaves_heights_outside_batch_alone() {
    let mut loader = FakeLoader {
        blocks: vec![
            (1, Ok(vec![trace(1, 0, addr(1), addr(1))])),
            (2, Ok(vec![trace(2, 0, addr(2), addr(2))])),
        ],
        calls: 0,
    };
    let mut svc = TraceFilterCache::new();
    run_request(&mut svc, &request(Some(1), Some(2), 0, 10), &mut loader, 0).unwrap();
    // Only height 1 is in the batch; both entries are long past their
    // deadline, but height 2 is not checked.
    svc.sweep(&vec![1], u64::MAX);
    assert!(!svc.store.contains(1));
    assert!(svc.store.contains(2));
}

#[test]
fn address_filters_apply_to_cached_range() {
    let t1 = trace(3, 0, addr(1), addr(9));
    let t2 = trace(3, 1, addr(2), addr(9));
    let t3 = trace(3, 2, addr(1), addr(8));
    let mut loader = FakeLoader {
        blocks: vec![(3, Ok(vec![t1.clone(), t2.clone(), t3.clone()]))],
        calls: 0,
    };
    let mut svc = TraceFilterCache::new();
    let mut req = request(Some(3), Some(3), 0, 10);
    req.from_address = vec![addr(1)];
    let got = run_request(&mut svc, &req, &mut loader, 0).unwrap();
    assert_eq!(got, vec![t1.clone(), t3.clone()]);

    req.to_address = vec![addr(9)];
    let got = run_request(&mut svc, &req, &mut loader, 0).unwrap();
    assert_eq!(got, vec![t1]);
}

#[test]
fn count_zero_returns_empty_without_error() {
    let mut loader = FakeLoader {
        blocks: vec![(2, Ok(vec![trace(2, 0, addr(1), addr(1))]))],
        calls: 0,
    };
    let mut svc = TraceFilterCache::new();
    let got = run_request(&mut svc, &request(Some(2), Some(2), 0, 0), &mut loader, 0).unwrap();
    assert_eq!(got, Vec::new());
}

#[test]
fn offset_past_survivors_returns_empty() {
    let mut loader = FakeLoader {
        blocks: vec![(2, Ok(vec![trace(2, 0, addr(1), addr(1))]))],
        calls: 0,
    };
    let mut svc = TraceFilterCache::new();
    let got = run_request(&mut svc, &request(Some(2), Some(2), 5, 10), &mut loader, 0).unwrap();
    assert_eq!(got, Vec::new());
}

#[test]
fn default_from_block_is_zero() {
    let mut loader = FakeLoader {
        blocks: vec![
            (0, Ok(vec![trace(0, 0, addr(1), addr(1))])),
            (1, Ok(vec![trace(1, 0, addr(2), addr(2))])),
        ],
        calls: 0,
    };
    let mut svc = TraceFilterCache::new();
    let got = run_request(&mut svc, &request(None, Some(1), 0, 10), &mut loader, 0).unwrap();
    assert_eq!(got.len(), 2);
    assert!(svc.store.contains(0));
    assert!(svc.store.contains(1));
}

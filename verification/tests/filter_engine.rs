//! Unit tests of the filter and pagination engine and of the loader
//! annotation step.

use trace_filter_cache::filter::filter_and_paginate;
use trace_filter_cache::loader::{annotate_traces, resolve_block};
use trace_filter_cache::types::{Address, Hash256, LoadError, TraceAction, TransactionTrace};

fn addr(n: u8) -> Address {
    Address { high: n as u32, low: n as u128 }
}

fn hash(n: u8) -> Hash256 {
    Hash256 { high: n as u128, low: n as u128 }
}

fn trace(position: u32, from: Address, to: Address) -> TransactionTrace {
    TransactionTrace {
        action: TraceAction::Call { from, to, value: 0, gas: 0, input: Vec::new() },
        block_hash: hash(0),
        block_number: 0,
        transaction_hash: hash(position as u8),
        transaction_position: position,
    }
}

#[test]
fn empty_filters_keep_everything_in_order() {
    let all = vec![
        trace(0, addr(1), addr(2)),
        trace(1, addr(3), addr(4)),
        trace(2, addr(5), addr(6)),
    ];
    let got = filter_and_paginate(&all, &Vec::new(), &Vec::new(), 0, 100);
    assert_eq!(got, all);
}

#[test]
fn both_sides_must_match() {
    let keep = trace(0, addr(1), addr(2));
    let wrong_to = trace(1, addr(1), addr(3));
    let wrong_from = trace(2, addr(4), addr(2));
    let all = vec![keep.clone(), wrong_to, wrong_from];
    let got = filter_and_paginate(&all, &vec![addr(1)], &vec![addr(2)], 0, 100);
    assert_eq!(got, vec![keep]);
}

#[test]
fn pagination_slices_the_filtered_sequence() {
    let all: Vec<TransactionTrace> =
        (0..7).map(|i| trace(i, addr(1), addr(1))).collect();
    // Seven survivors, skip two, take three: positions 2, 3, 4.
    let got = filter_and_paginate(&all, &Vec::new(), &Vec::new(), 2, 3);
    let positions: Vec<u32> = got.iter().map(|t| t.transaction_position).collect();
    assert_eq!(positions, vec![2, 3, 4]);
    // min(max(7 - 5, 0), 4) = 2 items remain from offset five.
    let tail = filter_and_paginate(&all, &Vec::new(), &Vec::new(), 5, 4);
    assert_eq!(tail.len(), 2);
    // An offset at the survivor count yields an empty result.
    let empty = filter_and_paginate(&all, &Vec::new(), &Vec::new(), 7, 4);
    assert!(empty.is_empty());
}

#[test]
fn annotation_stamps_hash_height_and_transaction_hash() {
    let raw = vec![trace(1, addr(1), addr(2)), trace(0, addr(3), addr(4))];
    let tx_hashes = vec![hash(7), hash(8)];
    let got = annotate_traces(&raw, 42, hash(9), &tx_hashes).unwrap();
    assert_eq!(got.len(), 2);
    assert_eq!(got[0].block_number, 42);
    assert_eq!(got[0].block_hash, hash(9));
    assert_eq!(got[0].transaction_hash, hash(8));
    assert_eq!(got[1].transaction_hash, hash(7));
    assert_eq!(got[1].block_number, 42);
}

#[test]
fn annotation_refuses_position_without_transaction() {
    let raw = vec![trace(0, addr(1), addr(2)), trace(2, addr(3), addr(4))];
    let tx_hashes = vec![hash(7), hash(8)];
    let got = annotate_traces(&raw, 42, hash(9), &tx_hashes);
    assert_eq!(got, Err(LoadError::TraceTransactionMismatch { height: 42 }));
}

#[test]
fn resolve_block_maps_each_lookup_failure() {
    assert_eq!(
        resolve_block(5, false, None),
        Err(LoadError::BlockNotFound { height: 5 })
    );
    assert_eq!(
        resolve_block(5, true, None),
        Err(LoadError::HashUnavailable { height: 5 })
    );
    assert_eq!(resolve_block(5, true, Some(hash(3))), Ok(hash(3)));
}

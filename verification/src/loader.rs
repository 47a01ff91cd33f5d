//! The verifiable half of the block trace loader.
//!
//! Producing a block's traces takes lookups and a replay that live outside
//! the core; what comes back is decided on here.  `resolve_block` turns the
//! two lookup outcomes of the miss path into the matching load errors, and
//! `annotate_traces` stamps the replay's raw traces with the block's hash,
//! its height, and each trace's transaction hash — refusing, rather than
//! truncating, a trace whose position has no transaction to match.

use vstd::prelude::*;

use crate::types::{models_of, Hash256, LoadError, TraceModel, TransactionTrace};

verus! {

/// The miss path's first decisions: no block at the height aborts the load
/// with `BlockNotFound`; a block without a canonical hash aborts it with
/// `HashUnavailable`; otherwise the hash is handed on.
pub fn resolve_block(height: u32, block_found: bool, block_hash: Option<Hash256>) -> (r: Result<
    Hash256,
    LoadError,
>)
    ensures
        match r {
            Ok(h) => block_found && block_hash == Some(h),
            Err(e) => {
                &&& !block_found ==> e == (LoadError::BlockNotFound { height })
                &&& (block_found && block_hash is None) ==> e == (LoadError::HashUnavailable {
                    height,
                })
                &&& !block_found || block_hash is None
            },
        },
{
    if !block_found {
        Err(LoadError::BlockNotFound { height })
    } else {
        match block_hash {
            Some(h) => Ok(h),
            None => Err(LoadError::HashUnavailable { height }),
        }
    }
}

/// What an annotated trace looks like: the raw trace's action and position,
/// under the block's hash and height, with the transaction hash its
/// position selects.
pub open spec fn annotated_model(
    raw: TraceModel,
    height: u32,
    block_hash: Hash256,
    tx_hashes: Seq<Hash256>,
) -> TraceModel {
    TraceModel {
        action: raw.action,
        block_hash,
        block_number: height,
        transaction_hash: tx_hashes[raw.transaction_position as int],
        transaction_position: raw.transaction_position,
    }
}

/// Stamps each raw trace of a replayed block with the block's hash, the
/// block's height, and the transaction hash its position points at.  A
/// position with no matching transaction is a defect of the replay, not a
/// silent truncation: the whole load fails with `TraceTransactionMismatch`,
/// exactly when such a position exists.
pub fn annotate_traces(
    raw: &Vec<TransactionTrace>,
    height: u32,
    block_hash: Hash256,
    tx_hashes: &Vec<Hash256>,
) -> (r: Result<Vec<TransactionTrace>, LoadError>)
    ensures
        match r {
            Ok(v) => {
                &&& forall|k: int|
                    0 <= k < raw@.len() ==> (#[trigger] raw@[k])@.transaction_position
                        < tx_hashes@.len()
                &&& v@.len() == raw@.len()
                &&& forall|k: int|
                    0 <= k < raw@.len() ==> (#[trigger] v@[k])@ == annotated_model(
                        raw@[k]@,
                        height,
                        block_hash,
                        tx_hashes@,
                    )
            },
            Err(e) => {
                &&& e == (LoadError::TraceTransactionMismatch { height })
                &&& exists|k: int|
                    0 <= k < raw@.len() && (#[trigger] raw@[k])@.transaction_position
                        >= tx_hashes@.len()
            },
        },
{
    let mut out: Vec<TransactionTrace> = Vec::new();
    let mut k: usize = 0;
    while k < raw.len()
        invariant
            k <= raw.len(),
            out@.len() == k,
            forall|j: int|
                0 <= j < k ==> (#[trigger] raw@[j])@.transaction_position < tx_hashes@.len(),
            forall|j: int|
                0 <= j < k ==> (#[trigger] out@[j])@ == annotated_model(
                    raw@[j]@,
                    height,
                    block_hash,
                    tx_hashes@,
                ),
        decreases raw.len() - k,
    {
        let t = &raw[k];
        let pos = t.transaction_position;
        if pos as u64 >= tx_hashes.len() as u64 {
            return Err(LoadError::TraceTransactionMismatch { height });
        }
        out.push(
            TransactionTrace {
                action: t.action.clone(),
                block_hash,
                block_number: height,
                transaction_hash: tx_hashes[pos as usize],
                transaction_position: pos,
            },
        );
        k = k + 1;
        proof {
            assert(out@[k - 1]@ =~= annotated_model(raw@[k - 1]@, height, block_hash, tx_hashes@));
        }
    }
    Ok(out)
}

} // verus!

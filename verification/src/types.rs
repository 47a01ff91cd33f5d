//! The data carried through the trace service: addresses, hashes, traces,
//! requests, responses, and the error taxonomy.
//!
//! Each executable trace type has a ghost model (its view), and every
//! contract of the service speaks of those models: a trace's model is the
//! trace with its call input read as a sequence of bytes.

use vstd::prelude::*;

verus! {

/// A 20-byte account address, held as its 4 high bytes and 16 low bytes so
/// that equality is structural.
#[derive(Clone, Copy, PartialEq, Eq, Structural, Debug)]
pub struct Address {
    pub high: u32,
    pub low: u128,
}

/// A 32-byte hash, held as its 16 high and 16 low bytes.
#[derive(Clone, Copy, PartialEq, Eq, Structural, Debug)]
pub struct Hash256 {
    pub high: u128,
    pub low: u128,
}

/// What one traced transaction did.  Only plain calls exist today; further
/// variants (contract creation, for one) are expected, so everything that
/// reads an action goes through `sender` and `receiver` and stays exhaustive.
#[derive(PartialEq, Eq, Debug)]
pub enum TraceAction {
    Call { from: Address, to: Address, value: u128, gas: u64, input: Vec<u8> },
}

/// The model of a `TraceAction`: the same fields with the call input as a
/// sequence.
#[verifier::ext_equal]
pub ghost struct ActionModel {
    pub from: Address,
    pub to: Address,
    pub value: u128,
    pub gas: u64,
    pub input: Seq<u8>,
}

impl View for TraceAction {
    type V = ActionModel;

    open spec fn view(&self) -> ActionModel {
        match *self {
            TraceAction::Call { from, to, value, gas, input } => ActionModel {
                from,
                to,
                value,
                gas,
                input: input@,
            },
        }
    }
}

/// The record of one transaction's execution inside a block.
#[derive(PartialEq, Eq, Debug)]
pub struct TransactionTrace {
    pub action: TraceAction,
    pub block_hash: Hash256,
    pub block_number: u32,
    pub transaction_hash: Hash256,
    pub transaction_position: u32,
}

/// The model of a `TransactionTrace`.
#[verifier::ext_equal]
pub ghost struct TraceModel {
    pub action: ActionModel,
    pub block_hash: Hash256,
    pub block_number: u32,
    pub transaction_hash: Hash256,
    pub transaction_position: u32,
}

impl View for TransactionTrace {
    type V = TraceModel;

    open spec fn view(&self) -> TraceModel {
        TraceModel {
            action: self.action@,
            block_hash: self.block_hash,
            block_number: self.block_number,
            transaction_hash: self.transaction_hash,
            transaction_position: self.transaction_position,
        }
    }
}

/// The models of a sequence of traces, in order.
pub open spec fn models_of(s: Seq<TransactionTrace>) -> Seq<TraceModel> {
    Seq::new(s.len(), |i: int| s[i]@)
}

impl TransactionTrace {
    /// The sender of this trace's action.
    pub fn sender(&self) -> (r: Address)
        ensures
            r == self@.action.from,
    {
        match &self.action {
            TraceAction::Call { from, .. } => *from,
        }
    }

    /// The recipient of this trace's action.
    pub fn receiver(&self) -> (r: Address)
        ensures
            r == self@.action.to,
    {
        match &self.action {
            TraceAction::Call { to, .. } => *to,
        }
    }
}

/// Copies a byte vector, element by element.
fn clone_bytes(b: &Vec<u8>) -> (r: Vec<u8>)
    ensures
        r@ == b@,
{
    let mut out: Vec<u8> = Vec::new();
    let mut i: usize = 0;
    while i < b.len()
        invariant
            i <= b.len(),
            out@ == b@.take(i as int),
        decreases b.len() - i,
    {
        out.push(b[i]);
        i = i + 1;
        proof {
            assert(out@ =~= b@.take(i as int));
        }
    }
    proof {
        assert(b@.take(b.len() as int) =~= b@);
    }
    out
}

impl Clone for TraceAction {
    /// A clone has the same model.
    fn clone(&self) -> (r: Self)
        ensures
            r@ == self@,
    {
        match self {
            TraceAction::Call { from, to, value, gas, input } => {
                let r = TraceAction::Call {
                    from: *from,
                    to: *to,
                    value: *value,
                    gas: *gas,
                    input: clone_bytes(input),
                };
                proof {
                    assert(r@ =~= self@);
                }
                r
            },
        }
    }
}

impl Clone for TransactionTrace {
    /// A clone has the same model.
    fn clone(&self) -> (r: Self)
        ensures
            r@ == self@,
    {
        let r = TransactionTrace {
            action: self.action.clone(),
            block_hash: self.block_hash,
            block_number: self.block_number,
            transaction_hash: self.transaction_hash,
            transaction_position: self.transaction_position,
        };
        proof {
            assert(r@ =~= self@);
        }
        r
    }
}

/// One range-filtered trace query.  `to_block` is required; its absence is a
/// request error, never an unchecked assumption.  Empty address lists mean
/// no filtering on that side.
#[derive(Clone, PartialEq, Eq, Debug)]
pub struct FilterRequest {
    /// First block of the range; absent means block 0.
    pub from_block: Option<u32>,
    /// Last block of the range, inclusive; required.
    pub to_block: Option<u32>,
    /// Keep only traces sent from one of these addresses; empty keeps all.
    pub from_address: Vec<Address>,
    /// Keep only traces sent to one of these addresses; empty keeps all.
    pub to_address: Vec<Address>,
    /// How many matching traces to skip before the first returned one.
    pub after: u32,
    /// How many matching traces to return at most.
    pub count: u32,
}

/// A successful reply: the matching traces, in ascending (height, position)
/// order.
#[derive(PartialEq, Eq, Debug)]
pub struct FilterResponse {
    pub traces: Vec<TransactionTrace>,
}

/// Why a block's traces could not be produced.  None of these is retried:
/// the service surfaces them to the caller of the request that needed the
/// block.
#[derive(Clone, PartialEq, Eq, Debug)]
pub enum LoadError {
    /// No block exists at the requested height.
    BlockNotFound { height: u32 },
    /// The block exists but its canonical hash could not be resolved.
    HashUnavailable { height: u32 },
    /// The state-layer identifier of the block or of its parent could not be
    /// looked up.
    AncestryLookupFailed { height: u32 },
    /// Re-executing the block from its parent's state failed.
    ReplayFailed { height: u32, detail: String },
    /// The replay produced a trace whose transaction position has no
    /// counterpart in the block's transaction list.
    TraceTransactionMismatch { height: u32 },
}

/// What a caller of `filter` can be told went wrong.
#[derive(Clone, PartialEq, Eq, Debug)]
pub enum RequestError {
    /// `to_block` was absent, the range was inverted, or the range was wider
    /// than the service accepts.
    InvalidRange,
    /// Producing the traces of `height` failed; the request was aborted
    /// there and later heights of its range were not attempted.
    Upstream { height: u32, cause: LoadError },
    /// The reply could not be delivered because the caller went away.  This
    /// is internal: the shell logs it and carries on.
    ChannelClosed,
}

} // verus!

//! A block-trace cache service.
//!
//! The service answers range-filtered queries over per-transaction execution
//! traces of historical blocks.  Traces for a block are produced once, by an
//! expensive replay step, and are then kept in an in-memory cache with a
//! time-to-live; queries are answered by filtering the cached traces by
//! sender and recipient address and slicing the result with an offset and a
//! limit.  The modules below hold the verified core: the cache store, the
//! filter and pagination engine, the loader-output annotation step, the
//! expiration scheduler's bookkeeping, and the per-request decisions of the
//! service loop.  The unverified shell around the core (channels, timers,
//! the block replay itself) drives these functions and performs whatever
//! they ask for.
//!
//! A few small chain components live beside the trace service: the
//! inflation schedule and its validity rule, a model of a staking genesis
//! build, the eligible-author selection, and the liquid staking arithmetic.

pub mod author_filter;
pub mod cache;
pub mod filter;
pub mod inflation;
pub mod liquid_staking;
pub mod loader;
pub mod scheduler;
pub mod service;
pub mod staking;
pub mod types;

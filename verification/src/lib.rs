//! A dependency-tracked reactive state-propagation engine: primitive value
//! cells with version counters, derived memos, re-runnable effects, a
//! batching scheduler that flushes each computation at most once per pass,
//! async-integration records (resources with stale-fetch suppression and
//! dispatchable actions with dispatch versioning), and a keyed collection
//! store with per-field cells.
//!
//! The engine is strictly single-owner: one driver holds the [`Runtime`] and
//! performs every read, write and flush. Computation bodies are arbitrary
//! caller code; the driver brackets each run with `begin_run` / `end_run`
//! (an explicit tracking stack) and asks `flush_next` which computation to
//! run next. Async fetches and mutations live outside the engine entirely;
//! their completions are handed back as plain values.

use vstd::prelude::*;

pub mod action;
pub mod dto;
pub mod keyed;
pub mod latency;
pub mod laws;
pub mod resource;
pub mod runtime;
pub mod sched;
pub mod suspense;
pub mod value;

verus! {

/// A structural invariant violation surfaced to the caller.
///
/// `DuplicateKey`: a keyed-store reconciliation was handed two rows with the
/// same key; the call fails without touching the store.
/// `CycleDetected`: a flush exceeded its iteration cap (an effect keeps
/// re-dirtying its own dependencies); the flush is aborted.
#[derive(Clone, Copy, Debug, PartialEq, Eq, Structural)]
pub enum EngineError {
    DuplicateKey,
    CycleDetected,
}

} // verus!

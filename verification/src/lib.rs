//! An asynchronous request/response bridge: any number of caller threads
//! submit lookup queries through a cloneable handle; one worker thread pulls
//! them off a queue, dispatches each to a lookup service, and delivers exactly
//! one correlated response per query through a single-use completion slot.
//!
//! This crate verifies the bridge's protocol: the slot lifecycle, per-handle
//! FIFO dispatch, containment of per-query failures, and shutdown semantics.
//! The threads, the event loop and the actual name resolution live outside
//! the verified core, which they drive event by event.

use vstd::prelude::*;

pub mod bridge;
pub mod laws;

verus! {

/// Phases of the worker loop that owns the single execution context.
#[derive(Clone, Copy, Debug, PartialEq, Eq, Structural)]
pub enum WorkerState {
    /// The worker thread is constructing its execution context; no handle
    /// exists yet, so nothing can have been submitted.
    Starting,
    /// The worker accepts new envelopes and dispatches them.
    Running,
    /// End-of-stream was seen: no new envelopes, but already-dispatched
    /// lookups may still deliver their responses.
    Draining,
    /// The worker has terminated; every slot has been resolved.
    Stopped,
}

} // verus!

//! The lifecycle state of one interpreter instance.
//!
//! The engine itself is opaque: construction, script execution, module
//! evaluation and event-loop polling all happen outside this crate. What is
//! held and verified here is every decision around them: which loader and
//! call sink an instance is bound to, whether a call sink may still be
//! bound, how many executions are in flight, whether the internal event
//! loop has drained, and whether a snapshot may be taken.

use vstd::prelude::*;

verus! {

/// Where an instance stands in its lifecycle.
#[derive(Clone, Copy, PartialEq, Eq, Structural, Debug)]
pub enum Phase {
    /// Constructed; no call sink bound, nothing executed yet.
    Created,
    /// A call sink is bound; nothing executed yet.
    Bound,
    /// At least one execute or module evaluation is in flight.
    Running,
    /// The internal event loop has drained; no execution in flight.
    Idle,
    /// A snapshot was taken; the instance mutates no further.
    Snapshotted,
}

/// What the engine reported when asked to construct an instance.
#[derive(Clone, Copy, PartialEq, Eq, Structural, Debug)]
pub enum EngineCreation {
    /// The instance was constructed (with or without a startup snapshot).
    Accepted,
    /// The given startup snapshot blob was malformed.
    RejectedSnapshot,
}

/// What the engine reported when its event loop was polled.
#[derive(Debug, Clone, PartialEq, Eq)]
pub enum EnginePoll {
    /// Microtasks and pending foreign calls have drained.
    Complete,
    /// Work remains; poll again after the next wake.
    Pending,
    /// The engine hit an unrecoverable internal error.
    Failed(String),
}

/// What a completed poll conveys to the consumer.
#[derive(Clone, Copy, PartialEq, Eq, Structural, Debug)]
pub enum PollStatus {
    /// The instance's event loop has drained.
    Complete,
    /// The instance still has work in flight.
    Pending,
}

/// The lifecycle state of one interpreter instance. The opaque engine state
/// lives with the host; this record decides what the instance may do next.
#[derive(Clone, Copy, Debug)]
pub struct InterpreterInstance {
    /// Handle of the module loader the instance was created with.
    pub loader_rid: u32,
    /// Handle of the call relay bound as the foreign-call sink, once set.
    pub call_sink_rid: Option<u32>,
    /// Whether the instance was created able to produce snapshots.
    pub will_snapshot: bool,
    /// Whether any execution was ever started.
    pub started: bool,
    /// How many executions are currently in flight.
    pub in_flight: u32,
    /// Whether the last poll reported the event loop drained.
    pub drained: bool,
    /// Whether a snapshot was taken.
    pub snapshotted: bool,
}

impl InterpreterInstance {
    /// The lifecycle phase the fields amount to.
    pub open spec fn phase(self) -> Phase {
        if self.snapshotted {
            Phase::Snapshotted
        } else if self.in_flight > 0 {
            Phase::Running
        } else if self.drained {
            Phase::Idle
        } else if self.call_sink_rid is Some {
            Phase::Bound
        } else {
            Phase::Created
        }
    }

    /// A freshly created instance, bound to its loader.
    pub fn new(loader_rid: u32, will_snapshot: bool) -> (r: Self)
        ensures
            r == (InterpreterInstance {
                loader_rid,
                call_sink_rid: None,
                will_snapshot,
                started: false,
                in_flight: 0u32,
                drained: false,
                snapshotted: false,
            }),
            r.phase() == Phase::Created,
    {
        InterpreterInstance {
            loader_rid,
            call_sink_rid: None,
            will_snapshot,
            started: false,
            in_flight: 0,
            drained: false,
            snapshotted: false,
        }
    }
}

} // verus!

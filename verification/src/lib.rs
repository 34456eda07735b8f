//! A replicated multi-tenant timer kernel: validated scheduling, a
//! per-timer lifecycle state machine with strictly versioned transitions,
//! HMAC-signed event envelopes over canonical JSON, jitter compensation,
//! tenant-scoped request authentication, and single-leader election over a
//! shared durable row.
//!
//! The kernel is deterministic: callers hand it clock readings and fresh
//! identifiers, and run storage, event delivery and the timed sleeps around
//! it. Everything the service decides — validation, transitions, signatures,
//! scopes, election verdicts — is decided here, under contract.

pub mod auth;
pub mod command;
pub mod election;
pub mod events;
pub mod graph;
pub mod jitter;
pub mod json;
pub mod kernel;
pub mod outside;
pub mod signer;
pub mod status;
pub mod strutil;
pub mod timer;

pub use crate::command::{CommandEntry, InMemoryCommandLog, InMemoryTimerStore, TimerCommand};
pub use crate::election::{ElectionResult, HeartbeatOutcome, LeaderHandle, LeadershipState};
pub use crate::events::JetStreamForwarderConfig;
pub use crate::jitter::{JitterMonitor, JitterSample};
pub use crate::kernel::{CancelOutcome, HorologyKernel, RaftSupervisor, StepOutcome};
pub use crate::signer::{EventEnvelope, EventSigner, TimerEvent};
pub use crate::status::TimerStatus;
pub use crate::timer::{KernelError, SchedulerConfig, TimerInstance, TimerSpec};

use vstd::prelude::*;

verus! {

/// Milliseconds since the Unix epoch, UTC.
pub type TimestampMs = i64;

} // verus!

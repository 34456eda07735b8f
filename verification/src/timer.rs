//! Timer requests, stored timer instances, their mathematical models, and
//! the per-timer lifecycle transitions.

use vstd::prelude::*;

use crate::json::{dup_opt_json, opt_json_view, JsonModel, JsonValue};
use crate::status::TimerStatus;
use crate::TimestampMs;

verus! {

/// The largest state version an instance may carry; the durable store keeps
/// versions in a signed 64-bit column.
pub const MAX_STATE_VERSION: u64 = 0x7fff_ffff_ffff_ffff;

/// The default upper bound on a timer's effective delay: thirty days.
pub const DEFAULT_MAX_DURATION_MS: u64 = 2592000000;

/// The smallest lead a compensated fire time keeps ahead of the clock.
pub const MIN_COMPENSATED_LEAD_MS: i64 = 5;

/// Scheduler-wide configuration.
#[derive(Clone, Debug)]
pub struct SchedulerConfig {
    /// Upper bound on a timer's effective delay; `None` disables the bound.
    pub max_duration_ms: Option<u64>,
}

impl Default for SchedulerConfig {
    /// The default configuration bounds delays by thirty days.
    fn default() -> (r: Self)
        ensures
            r.max_duration_ms == Some(DEFAULT_MAX_DURATION_MS),
    {
        SchedulerConfig { max_duration_ms: Some(DEFAULT_MAX_DURATION_MS) }
    }
}

/// Why a kernel operation was refused.
#[derive(Debug)]
pub enum KernelError {
    /// The requested delay was zero or exceeded the configured maximum.
    InvalidDuration,
    /// The requested absolute fire time was not in the future.
    InvalidFireTime,
    /// This node is not the leader and must not mutate timers.
    NotLeader,
    /// A timer with the same id already exists.
    DuplicateTimer,
    /// The durable store or command log refused a write.
    Persistence(String),
}

impl KernelError {
    /// A human-readable description of the error.
    pub fn message(&self) -> (r: &'static str)
        ensures
            *self is InvalidDuration ==> r@ == "duration must be greater than zero"@,
            *self is InvalidFireTime ==> r@ == "fire_at must be in the future"@,
            *self is NotLeader ==> r@ == "horology kernel is not the leader"@,
            *self is DuplicateTimer ==> r@ == "timer id already exists"@,
            *self is Persistence ==> r@ == "persistence error"@,
    {
        proof {
            reveal_strlit("duration must be greater than zero");
            reveal_strlit("fire_at must be in the future");
            reveal_strlit("horology kernel is not the leader");
            reveal_strlit("timer id already exists");
            reveal_strlit("persistence error");
        }
        match self {
            KernelError::InvalidDuration => "duration must be greater than zero",
            KernelError::InvalidFireTime => "fire_at must be in the future",
            KernelError::NotLeader => "horology kernel is not the leader",
            KernelError::DuplicateTimer => "timer id already exists",
            KernelError::Persistence(_) => "persistence error",
        }
    }
}

/// A request to schedule a timer.
#[derive(Debug)]
pub struct TimerSpec {
    pub tenant_id: String,
    pub requested_by: String,
    pub name: Option<String>,
    /// Relative delay in milliseconds; used only when `fire_at` is absent.
    pub duration_ms: u64,
    /// Absolute fire instant; takes precedence over `duration_ms`.
    pub fire_at: Option<TimestampMs>,
    pub metadata: Option<JsonValue>,
    pub labels: Vec<(String, String)>,
    pub action_bundle: Option<JsonValue>,
    pub agent_binding: Option<JsonValue>,
}

/// A stored timer instance.
#[derive(Debug)]
pub struct TimerInstance {
    /// Globally unique 128-bit identifier.
    pub id: u128,
    pub tenant_id: String,
    pub requested_by: String,
    pub name: String,
    /// Effective delay at scheduling time, in milliseconds.
    pub duration_ms: u64,
    pub created_at: TimestampMs,
    pub fire_at: TimestampMs,
    pub status: TimerStatus,
    pub metadata: Option<JsonValue>,
    pub labels: Vec<(String, String)>,
    pub action_bundle: Option<JsonValue>,
    pub agent_binding: Option<JsonValue>,
    pub fired_at: Option<TimestampMs>,
    pub cancelled_at: Option<TimestampMs>,
    pub cancel_reason: Option<String>,
    pub cancelled_by: Option<String>,
    pub settled_at: Option<TimestampMs>,
    pub failure_reason: Option<String>,
    /// Incremented by exactly one on every status transition.
    pub state_version: u64,
}

/// The mathematical model of a stored timer instance.
pub struct TimerModel {
    pub id: u128,
    pub tenant_id: Seq<char>,
    pub requested_by: Seq<char>,
    pub name: Seq<char>,
    pub duration_ms: u64,
    pub created_at: TimestampMs,
    pub fire_at: TimestampMs,
    pub status: TimerStatus,
    pub metadata: Option<JsonModel>,
    pub labels: Seq<(Seq<char>, Seq<char>)>,
    pub action_bundle: Option<JsonModel>,
    pub agent_binding: Option<JsonModel>,
    pub fired_at: Option<TimestampMs>,
    pub cancelled_at: Option<TimestampMs>,
    pub cancel_reason: Option<Seq<char>>,
    pub cancelled_by: Option<Seq<char>>,
    pub settled_at: Option<TimestampMs>,
    pub failure_reason: Option<Seq<char>>,
    pub state_version: u64,
}

/// The character sequence of an optional string.
pub open spec fn opt_str_view(o: Option<String>) -> Option<Seq<char>> {
    match o {
        Some(s) => Some(s@),
        None => None,
    }
}

/// The model of a label list, key and value as character sequences.
pub open spec fn labels_view(labels: Seq<(String, String)>) -> Seq<(Seq<char>, Seq<char>)> {
    Seq::new(labels.len(), |i: int| (labels[i].0@, labels[i].1@))
}

/// A deep copy of an optional string.
pub fn dup_opt_string(o: &Option<String>) -> (r: Option<String>)
    ensures
        opt_str_view(r) == opt_str_view(*o),
{
    match o {
        Some(s) => Some(s.clone()),
        None => None,
    }
}

/// A deep copy of a label list.
pub fn dup_labels(labels: &Vec<(String, String)>) -> (r: Vec<(String, String)>)
    ensures
        labels_view(r@) == labels_view(labels@),
{
    let mut out: Vec<(String, String)> = Vec::new();
    let n = labels.len();
    let mut i: usize = 0;
    while i < n
        invariant
            n == labels@.len(),
            0 <= i <= n,
            out@.len() == i,
            forall|j: int|
                0 <= j < i ==> (#[trigger] out@[j]).0@ == labels@[j].0@ && out@[j].1@
                    == labels@[j].1@,
        decreases n - i,
    {
        let (k, v) = &labels[i];
        let pair = (k.clone(), v.clone());
        out.push(pair);
        i += 1;
    }
    proof {
        assert(labels_view(out@) =~= labels_view(labels@));
    }
    out
}

impl View for TimerInstance {
    type V = TimerModel;

    open spec fn view(&self) -> TimerModel {
        TimerModel {
            id: self.id,
            tenant_id: self.tenant_id@,
            requested_by: self.requested_by@,
            name: self.name@,
            duration_ms: self.duration_ms,
            created_at: self.created_at,
            fire_at: self.fire_at,
            status: self.status,
            metadata: opt_json_view(self.metadata),
            labels: labels_view(self.labels@),
            action_bundle: opt_json_view(self.action_bundle),
            agent_binding: opt_json_view(self.agent_binding),
            fired_at: self.fired_at,
            cancelled_at: self.cancelled_at,
            cancel_reason: opt_str_view(self.cancel_reason),
            cancelled_by: opt_str_view(self.cancelled_by),
            settled_at: self.settled_at,
            failure_reason: opt_str_view(self.failure_reason),
            state_version: self.state_version,
        }
    }
}

impl TimerModel {
    /// Well-formedness of a stored instance: the tenant is named, the fire
    /// instant never precedes creation, and the version fits the store.
    pub open spec fn wf(self) -> bool {
        &&& self.tenant_id.len() > 0
        &&& self.fire_at >= self.created_at
        &&& self.state_version < MAX_STATE_VERSION
    }

    /// Whether the instance has reached a terminal status.
    pub open spec fn is_terminal(self) -> bool {
        self.status.spec_is_terminal()
    }

    /// The model after arming: only the status and version change.
    pub open spec fn armed(self) -> TimerModel {
        TimerModel {
            status: TimerStatus::Armed,
            state_version: (self.state_version + 1) as u64,
            ..self
        }
    }

    /// The model after firing at `now`.
    pub open spec fn fired(self, now: TimestampMs) -> TimerModel {
        TimerModel {
            status: TimerStatus::Fired,
            fired_at: Some(now),
            state_version: (self.state_version + 1) as u64,
            ..self
        }
    }

    /// The model after settling at `now`.
    pub open spec fn settled(self, now: TimestampMs) -> TimerModel {
        TimerModel {
            status: TimerStatus::Settled,
            settled_at: Some(now),
            state_version: (self.state_version + 1) as u64,
            ..self
        }
    }

    /// The model after cancellation at `now` by `cancelled_by` for `reason`.
    pub open spec fn cancelled(
        self,
        now: TimestampMs,
        reason: Option<Seq<char>>,
        cancelled_by: Option<Seq<char>>,
    ) -> TimerModel {
        TimerModel {
            status: TimerStatus::Cancelled,
            cancelled_at: Some(now),
            cancel_reason: reason,
            cancelled_by: cancelled_by,
            state_version: (self.state_version + 1) as u64,
            ..self
        }
    }

    /// The model after failing at `now` for `reason`.
    pub open spec fn failed(self, reason: Seq<char>) -> TimerModel {
        TimerModel {
            status: TimerStatus::Failed,
            failure_reason: Some(reason),
            state_version: (self.state_version + 1) as u64,
            ..self
        }
    }
}

/// One step of the per-timer lifecycle: `after` is what one of the five
/// transitions makes of `before`.
pub open spec fn lifecycle_step(before: TimerModel, after: TimerModel) -> bool {
    ||| after == before.armed()
    ||| (exists|now: TimestampMs| after == before.fired(now))
    ||| (exists|now: TimestampMs| after == before.settled(now))
    ||| (exists|now: TimestampMs, reason: Option<Seq<char>>, by: Option<Seq<char>>|
        after == before.cancelled(now, reason, by))
    ||| (exists|reason: Seq<char>| after == before.failed(reason))
}

impl TimerInstance {
    /// A deep copy whose model is exactly this one's.
    pub fn snapshot(&self) -> (r: Self)
        ensures
            r@ == self@,
    {
        let r = TimerInstance {
            id: self.id,
            tenant_id: self.tenant_id.clone(),
            requested_by: self.requested_by.clone(),
            name: self.name.clone(),
            duration_ms: self.duration_ms,
            created_at: self.created_at,
            fire_at: self.fire_at,
            status: self.status,
            metadata: dup_opt_json(&self.metadata),
            labels: dup_labels(&self.labels),
            action_bundle: dup_opt_json(&self.action_bundle),
            agent_binding: dup_opt_json(&self.agent_binding),
            fired_at: self.fired_at,
            cancelled_at: self.cancelled_at,
            cancel_reason: dup_opt_string(&self.cancel_reason),
            cancelled_by: dup_opt_string(&self.cancelled_by),
            settled_at: self.settled_at,
            failure_reason: dup_opt_string(&self.failure_reason),
            state_version: self.state_version,
        };
        r
    }

    /// Whether this instance has reached a terminal status.
    pub fn is_terminal(&self) -> (r: bool)
        ensures
            r == self@.is_terminal(),
    {
        self.status.is_terminal()
    }

    /// Arms the timer: `Scheduled` becomes `Armed`, version steps by one.
    pub fn into_armed(self) -> (r: Self)
        requires
            self@.state_version < MAX_STATE_VERSION,
        ensures
            r@ == self@.armed(),
    {
        TimerInstance { status: TimerStatus::Armed, state_version: self.state_version + 1, ..self }
    }

    /// Fires the timer at `now`: records the instant, version steps by one.
    pub fn into_fired(self, now: TimestampMs) -> (r: Self)
        requires
            self@.state_version < MAX_STATE_VERSION,
        ensures
            r@ == self@.fired(now),
    {
        TimerInstance {
            status: TimerStatus::Fired,
            fired_at: Some(now),
            state_version: self.state_version + 1,
            ..self
        }
    }

    /// Settles the timer at `now`: records the instant, version steps by one.
    pub fn into_settled(self, now: TimestampMs) -> (r: Self)
        requires
            self@.state_version < MAX_STATE_VERSION,
        ensures
            r@ == self@.settled(now),
    {
        TimerInstance {
            status: TimerStatus::Settled,
            settled_at: Some(now),
            state_version: self.state_version + 1,
            ..self
        }
    }

    /// Cancels the timer at `now`: records who and why, version steps by one.
    pub fn into_cancelled(
        self,
        now: TimestampMs,
        reason: Option<String>,
        cancelled_by: Option<String>,
    ) -> (r: Self)
        requires
            self@.state_version < MAX_STATE_VERSION,
        ensures
            r@ == self@.cancelled(
                now,
                opt_str_view(reason),
                opt_str_view(cancelled_by),
            ),
    {
        TimerInstance {
            status: TimerStatus::Cancelled,
            cancelled_at: Some(now),
            cancel_reason: reason,
            cancelled_by: cancelled_by,
            state_version: self.state_version + 1,
            ..self
        }
    }
}

impl Clone for TimerInstance {
    /// A deep copy whose model is exactly this one's.
    fn clone(&self) -> (r: Self)
        ensures
            r@ == self@,
    {
        self.snapshot()
    }
}

/// Every lifecycle transition raises the state version by exactly one,
/// keeps the identity, tenancy and timing of the instance, and preserves
/// well-formedness.
pub proof fn lemma_lifecycle_step_shape(before: TimerModel, after: TimerModel)
    requires
        lifecycle_step(before, after),
        before.state_version + 1 < MAX_STATE_VERSION,
    ensures
        after.state_version == before.state_version + 1,
        after.id == before.id,
        after.tenant_id == before.tenant_id,
        after.fire_at == before.fire_at,
        after.created_at == before.created_at,
        before.wf() ==> after.wf(),
{
}

} // verus!

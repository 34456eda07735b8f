//! The timer kernel: an in-memory index of timer instances under exact
//! contracts, with leader gating, validated scheduling, cancellation, the
//! per-timer fire-path transitions, tenant-scoped reads, and restore.
//!
//! The kernel is deterministic: callers supply the clock reading and fresh
//! identifiers, and perform storage, logging and event delivery around it.

use vstd::prelude::*;
use vstd::pervasive::VecAdditionalExecFns;

use crate::status::TimerStatus;
use crate::timer::{
    labels_view, opt_str_view, KernelError, SchedulerConfig, TimerInstance, TimerModel, TimerSpec,
    MAX_STATE_VERSION, MIN_COMPENSATED_LEAD_MS,
};
use crate::TimestampMs;

verus! {

/// The largest admissible fire instant: the last millisecond of year 9999,
/// the bound to which the time formatter is specified.
pub const MAX_FIRE_AT_MS: i64 = 253402300799999;

/// Leadership as observed by this node in a single-node replication group.
///
/// The group initialises with the local node as leader; the replication
/// supervisor may step it down or promote it again.
pub struct RaftSupervisor {
    node_id: u64,
    leader_id: Option<u64>,
}

impl RaftSupervisor {
    /// The node this supervisor reports for.
    pub closed spec fn spec_node_id(self) -> u64 {
        self.node_id
    }

    /// The node currently believed to be leader, if any.
    pub closed spec fn spec_leader_id(self) -> Option<u64> {
        self.leader_id
    }

    /// Whether the local node is the leader.
    pub open spec fn spec_is_leader(self) -> bool {
        self.spec_leader_id() == Some(self.spec_node_id())
    }

    /// A single-node group starts out led by the local node.
    pub fn new(node_id: u64) -> (r: Self)
        ensures
            r.spec_node_id() == node_id,
            r.spec_leader_id() == Some(node_id),
            r.spec_is_leader(),
    {
        RaftSupervisor { node_id, leader_id: Some(node_id) }
    }

    /// Whether the local node is the leader.
    pub fn is_leader(&self) -> (r: bool)
        ensures
            r == self.spec_is_leader(),
    {
        match self.leader_id {
            Some(id) => id == self.node_id,
            None => false,
        }
    }

    /// Forgets any known leader; the local node becomes a follower.
    pub fn mark_stepdown(&mut self)
        ensures
            final(self).spec_node_id() == old(self).spec_node_id(),
            final(self).spec_leader_id() is None,
            !final(self).spec_is_leader(),
    {
        self.leader_id = None;
    }

    /// Records the local node as leader.
    pub fn promote_self(&mut self)
        ensures
            final(self).spec_node_id() == old(self).spec_node_id(),
            final(self).spec_is_leader(),
    {
        self.leader_id = Some(self.node_id);
    }

    /// The local node's identifier.
    pub fn node_id(&self) -> (r: u64)
        ensures
            r == self.spec_node_id(),
    {
        self.node_id
    }
}

/// The models of an index of timer instances, element by element.
pub open spec fn index_view(timers: Seq<TimerInstance>) -> Seq<TimerModel> {
    Seq::new(timers.len(), |i: int| timers[i]@)
}

/// Well-formedness of the timer index: every instance is well-formed and
/// identifiers are unique.
pub open spec fn index_wf(s: Seq<TimerModel>) -> bool {
    &&& forall|i: int| 0 <= i < s.len() ==> (#[trigger] s[i]).wf()
    &&& forall|i: int, j: int| #![trigger s[i], s[j]] 0 <= i < j < s.len() ==> s[i].id != s[j].id
}

/// Whether some instance in the index carries `id`.
pub open spec fn contains_id(s: Seq<TimerModel>, id: u128) -> bool {
    exists|i: int| 0 <= i < s.len() && (#[trigger] s[i]).id == id
}

/// The position of the instance carrying `id`.
pub open spec fn id_index(s: Seq<TimerModel>, id: u128) -> int {
    choose|i: int| 0 <= i < s.len() && (#[trigger] s[i]).id == id
}

/// In a well-formed index the position of an identifier is unique.
pub proof fn lemma_id_index_unique(s: Seq<TimerModel>, id: u128, i: int)
    requires
        index_wf(s),
        0 <= i < s.len(),
        s[i].id == id,
    ensures
        contains_id(s, id),
        id_index(s, id) == i,
{
    assert(contains_id(s, id));
    let j = id_index(s, id);
    if i < j {
        assert(s[i].id != s[j].id);
    }
    if j < i {
        assert(s[j].id != s[i].id);
    }
}

/// The timer kernel. Mutating operations are leader-gated when a
/// replication supervisor is attached.
pub struct HorologyKernel {
    config: SchedulerConfig,
    timers: Vec<TimerInstance>,
    raft: Option<RaftSupervisor>,
}

impl View for HorologyKernel {
    type V = Seq<TimerModel>;

    closed spec fn view(&self) -> Seq<TimerModel> {
        index_view(self.timers@)
    }
}

/// The fire instant after jitter compensation: the target shifted earlier
/// by the hint, but never closer to `now` than the minimum lead; a zero
/// hint leaves the target untouched.
pub open spec fn adjusted_fire_at(now: int, target: int, hint: int) -> int {
    if hint == 0 {
        target
    } else {
        let candidate = target - hint;
        let minimum = now + MIN_COMPENSATED_LEAD_MS;
        if candidate < minimum {
            minimum
        } else {
            candidate
        }
    }
}

/// A compensation hint clamped to the monitor's bound.
pub open spec fn clamped_hint(hint: int) -> int {
    if hint < -crate::jitter::MAX_COMPENSATION_MS {
        -crate::jitter::MAX_COMPENSATION_MS as int
    } else if hint > crate::jitter::MAX_COMPENSATION_MS {
        crate::jitter::MAX_COMPENSATION_MS as int
    } else {
        hint
    }
}

impl HorologyKernel {
    /// The configuration the kernel was built with.
    pub closed spec fn spec_config(self) -> SchedulerConfig {
        self.config
    }

    /// The attached replication supervisor, if any.
    pub closed spec fn spec_raft(self) -> Option<RaftSupervisor> {
        self.raft
    }

    /// Whether mutations are currently allowed: true when no supervisor is
    /// attached, otherwise the supervisor's own verdict.
    pub open spec fn spec_is_leader(self) -> bool {
        match self.spec_raft() {
            None => true,
            Some(r) => r.spec_is_leader(),
        }
    }

    /// Kernel well-formedness: the index is well-formed.
    pub open spec fn wf(self) -> bool {
        index_wf(self@)
    }

    /// The largest delay the configuration admits from `now`: the configured
    /// maximum, further capped so the fire instant stays representable.
    pub open spec fn spec_max_delay(self, now: int) -> int {
        let cap = MAX_FIRE_AT_MS - now;
        match self.spec_config().max_duration_ms {
            Some(max) => if max as int <= cap {
                max as int
            } else {
                cap
            },
            None => cap,
        }
    }

    /// An ungated kernel over an empty index.
    pub fn new(config: SchedulerConfig) -> (r: Self)
        ensures
            r@ =~= Seq::<TimerModel>::empty(),
            r.wf(),
            r.spec_config() == config,
            r.spec_raft() is None,
            r.spec_is_leader(),
    {
        HorologyKernel { config, timers: Vec::new(), raft: None }
    }

    /// A leader-gated kernel over an empty index, supervised as a
    /// single-node group that starts out leading.
    pub fn new_supervised(config: SchedulerConfig, node_id: u64) -> (r: Self)
        ensures
            r@ =~= Seq::<TimerModel>::empty(),
            r.wf(),
            r.spec_config() == config,
            r.spec_raft() matches Some(s) && s.spec_node_id() == node_id && s.spec_is_leader(),
            r.spec_is_leader(),
    {
        HorologyKernel { config, timers: Vec::new(), raft: Some(RaftSupervisor::new(node_id)) }
    }

    /// Whether mutations are currently allowed on this node.
    pub fn is_leader(&self) -> (r: bool)
        ensures
            r == self.spec_is_leader(),
    {
        match &self.raft {
            None => true,
            Some(r) => r.is_leader(),
        }
    }

    /// Steps the attached supervisor down; without one this does nothing.
    pub fn mark_stepdown(&mut self)
        ensures
            final(self)@ == old(self)@,
            final(self).spec_config() == old(self).spec_config(),
            old(self).spec_raft() is Some ==> !final(self).spec_is_leader(),
            old(self).spec_raft() is None ==> final(self).spec_is_leader(),
            final(self).spec_raft() is Some <==> old(self).spec_raft() is Some,
    {
        match &mut self.raft {
            Some(r) => r.mark_stepdown(),
            None => {},
        }
    }

    /// Promotes the attached supervisor; without one this does nothing.
    pub fn promote_self(&mut self)
        ensures
            final(self)@ == old(self)@,
            final(self).spec_config() == old(self).spec_config(),
            final(self).spec_is_leader(),
            final(self).spec_raft() is Some <==> old(self).spec_raft() is Some,
    {
        match &mut self.raft {
            Some(r) => r.promote_self(),
            None => {},
        }
    }

    /// The position of the instance carrying `id`, if one exists.
    fn find_index(&self, id: u128) -> (r: Option<usize>)
        ensures
            match r {
                Some(i) => i < self@.len() && self@[i as int].id == id,
                None => !contains_id(self@, id),
            },
    {
        let n = self.timers.len();
        let mut i: usize = 0;
        while i < n
            invariant
                n == self.timers@.len(),
                0 <= i <= n,
                forall|j: int| 0 <= j < i ==> (#[trigger] index_view(self.timers@)[j]).id != id,
            decreases n - i,
        {
            if self.timers[i].id == id {
                return Some(i);
            }
            proof {
                assert(index_view(self.timers@)[i as int] == self.timers@[i as int]@);
            }
            i += 1;
        }
        None
    }

    /// Schedules a timer deterministically: `now` is the caller's clock
    /// reading, `id` the fresh identifier, `hint` the jitter-compensation
    /// hint (clamped to the monitor's bound before use).
    ///
    /// On success the new instance is appended to the index with status
    /// `Scheduled` and state version zero; each error names exactly the
    /// inputs on which it occurs, and on error the index is unchanged.
    pub fn schedule_at(
        &mut self,
        sp: TimerSpec,
        now: TimestampMs,
        id: u128,
        hint: i64,
    ) -> (r: Result<TimerInstance, KernelError>)
        requires
            old(self).wf(),
            0 <= now <= MAX_FIRE_AT_MS,
            sp.tenant_id@.len() > 0,
        ensures
            final(self).wf(),
            final(self).spec_config() == old(self).spec_config(),
            final(self).spec_raft() == old(self).spec_raft(),
            r matches Err(KernelError::NotLeader) <==> !old(self).spec_is_leader(),
            old(self).spec_is_leader() ==> (r matches Err(KernelError::InvalidFireTime) <==> (
            sp.fire_at matches Some(ts) && ts <= now)),
            old(self).spec_is_leader() && !(sp.fire_at matches Some(ts) && ts <= now) ==> (
            r matches Err(KernelError::InvalidDuration) <==> (sp.fire_at is None
                && sp.duration_ms == 0) || spec_requested_delay(sp, now as int) > old(
                self,
            ).spec_max_delay(now as int)),
            r matches Err(KernelError::DuplicateTimer) ==> contains_id(old(self)@, id),
            old(self).spec_is_leader() && spec_schedule_valid(sp, now as int, *old(self))
                && !contains_id(old(self)@, id) ==> r is Ok,
            !(r matches Err(KernelError::Persistence(_))),
            r matches Err(_) ==> final(self)@ == old(self)@,
            r matches Ok(t) ==> {
                let target = spec_fire_target(sp, now as int);
                let adjusted = adjusted_fire_at(now as int, target, clamped_hint(hint as int));
                &&& t@.id == id
                &&& t@.tenant_id == sp.tenant_id@
                &&& t@.requested_by == sp.requested_by@
                &&& (match opt_str_view(sp.name) {
                    Some(n) => t@.name == n,
                    None => t@.name == "timer-"@ + crate::strutil::dec_of(now as nat),
                })
                &&& t@.status is Scheduled
                &&& t@.state_version == 0
                &&& t@.created_at == now
                &&& t@.fire_at == adjusted
                &&& t@.duration_ms == adjusted - now
                &&& now <= t@.fire_at <= MAX_FIRE_AT_MS + crate::jitter::MAX_COMPENSATION_MS
                &&& t@.metadata == crate::json::opt_json_view(sp.metadata)
                &&& t@.labels == labels_view(sp.labels@)
                &&& t@.action_bundle == crate::json::opt_json_view(sp.action_bundle)
                &&& t@.agent_binding == crate::json::opt_json_view(sp.agent_binding)
                &&& t@.fired_at is None && t@.cancelled_at is None && t@.settled_at is None
                &&& t@.cancel_reason is None && t@.cancelled_by is None && t@.failure_reason
                    is None
                &&& final(self)@ == old(self)@.push(t@)
                &&& !contains_id(old(self)@, id)
            },
    {
        if !self.is_leader() {
            return Err(KernelError::NotLeader);
        }

        let delay: u64 = match sp.fire_at {
            Some(ts) => {
                if ts <= now {
                    return Err(KernelError::InvalidFireTime);
                }
                (ts - now) as u64
            },
            None => {
                if sp.duration_ms == 0 {
                    return Err(KernelError::InvalidDuration);
                }
                sp.duration_ms
            },
        };

        let cap: u64 = (MAX_FIRE_AT_MS - now) as u64;
        let max_delay: u64 = match self.config.max_duration_ms {
            Some(max) => if max <= cap {
                max
            } else {
                cap
            },
            None => cap,
        };
        if delay > max_delay {
            return Err(KernelError::InvalidDuration);
        }

        let target: i64 = match sp.fire_at {
            Some(ts) => ts,
            None => now + (delay as i64),
        };

        let clamped: i64 = if hint < -crate::jitter::MAX_COMPENSATION_MS {
            -crate::jitter::MAX_COMPENSATION_MS
        } else if hint > crate::jitter::MAX_COMPENSATION_MS {
            crate::jitter::MAX_COMPENSATION_MS
        } else {
            hint
        };
        let fire_at: i64 = if clamped == 0 {
            target
        } else {
            let candidate = target - clamped;
            let minimum = now + MIN_COMPENSATED_LEAD_MS;
            if candidate < minimum {
                minimum
            } else {
                candidate
            }
        };
        let duration_ms: u64 = (fire_at - now) as u64;

        if self.find_index(id).is_some() {
            return Err(KernelError::DuplicateTimer);
        }

        let name: String = match sp.name {
            Some(n) => n,
            None => {
                let mut base = String::from_str("timer-");
                crate::strutil::append_u64(&mut base, now as u64);
                base
            },
        };

        let timer = TimerInstance {
            id,
            tenant_id: sp.tenant_id,
            requested_by: sp.requested_by,
            name,
            duration_ms,
            created_at: now,
            fire_at,
            status: TimerStatus::Scheduled,
            metadata: sp.metadata,
            labels: sp.labels,
            action_bundle: sp.action_bundle,
            agent_binding: sp.agent_binding,
            fired_at: None,
            cancelled_at: None,
            cancel_reason: None,
            cancelled_by: None,
            settled_at: None,
            failure_reason: None,
            state_version: 0,
        };
        let snap = timer.snapshot();
        self.timers.push(timer);
        proof {
            assert(self@ =~= old(self)@.push(snap@));
            assert forall|i: int, j: int| #![trigger self@[i], self@[j]]
                0 <= i < j < self@.len() implies self@[i].id != self@[j].id by {
                if j < self@.len() - 1 {
                    assert(old(self)@[i].id != old(self)@[j].id);
                } else {
                    assert(self@[i] == old(self)@[i]);
                    assert(old(self)@[i].id != id);
                }
            }
        }
        Ok(snap)
    }
}

/// The delay a request asks for: the distance from `now` to the given
/// absolute instant, or the relative duration.
pub open spec fn spec_requested_delay(sp: TimerSpec, now: int) -> int {
    match sp.fire_at {
        Some(ts) => ts - now,
        None => sp.duration_ms as int,
    }
}

/// The uncompensated fire instant a request asks for.
pub open spec fn spec_fire_target(sp: TimerSpec, now: int) -> int {
    match sp.fire_at {
        Some(ts) => ts as int,
        None => now + sp.duration_ms as int,
    }
}

/// Whether a request passes validation under the kernel's configuration.
pub open spec fn spec_schedule_valid(sp: TimerSpec, now: int, k: HorologyKernel) -> bool {
    &&& !(sp.fire_at matches Some(ts) && ts <= now)
    &&& !(sp.fire_at is None && sp.duration_ms == 0)
    &&& spec_requested_delay(sp, now) <= k.spec_max_delay(now)
}

// ==========================================================================
// Reads, cancellation, the fire path, and restore.
// ==========================================================================

/// The outcome of a cancellation that was allowed to run.
#[derive(Debug)]
pub enum CancelOutcome {
    /// No timer with that identifier exists in this tenant's scope.
    NotFound,
    /// The timer had already fired or reached a terminal status; the
    /// snapshot is returned unchanged and no event is due.
    Unchanged(TimerInstance),
    /// The timer was cancelled; the snapshot carries the new status and a
    /// `Cancelled` event is due.
    Cancelled(TimerInstance),
}

/// The outcome of one fire-path step.
#[derive(Debug)]
pub enum StepOutcome {
    /// The transition was taken; the snapshot carries the new status.
    Transitioned(TimerInstance),
    /// The timer is missing, in the wrong status, or this node lost
    /// leadership: the fire task must stop without a state change.
    Skipped,
}

/// The instances of `s` scoped to one tenant.
pub open spec fn tenant_filter(s: Seq<TimerModel>, tenant: Seq<char>) -> Seq<TimerModel> {
    s.filter(|m: TimerModel| m.tenant_id == tenant)
}

/// Nondecreasing fire instants.
pub open spec fn sorted_by_fire_at(s: Seq<TimerModel>) -> bool {
    forall|i: int, j: int| #![trigger s[i], s[j]] 0 <= i < j < s.len() ==> s[i].fire_at <= s[j].fire_at
}

/// Inserting anywhere adds one occurrence to the multiset.
proof fn lemma_insert_to_multiset(s: Seq<TimerModel>, pos: int, x: TimerModel)
    requires
        0 <= pos <= s.len(),
    ensures
        s.insert(pos, x).to_multiset() =~= s.to_multiset().insert(x),
{
    broadcast use vstd::seq_lib::group_to_multiset_ensures;

    let front = s.subrange(0, pos);
    let back = s.subrange(pos, s.len() as int);
    assert(s.insert(pos, x) == front.push(x) + back);
    vstd::seq_lib::lemma_multiset_commutative(front.push(x), back);
    vstd::seq_lib::lemma_multiset_commutative(front, back);
    assert(front + back =~= s);
    assert(front.push(x).to_multiset() =~= front.to_multiset().insert(x));
    assert(s.insert(pos, x).to_multiset() =~= front.to_multiset().insert(x).add(
        back.to_multiset(),
    ));
    assert(front.to_multiset().insert(x).add(back.to_multiset()) =~= front.to_multiset().add(
        back.to_multiset(),
    ).insert(x));
}

impl HorologyKernel {
    /// The tenant-scoped read of one timer: the snapshot of the instance
    /// carrying `timer_id`, unless no such instance exists or it belongs to
    /// another tenant; the two are indistinguishable to the caller.
    pub fn get(&self, tenant_id: &str, timer_id: u128) -> (r: Option<TimerInstance>)
        requires
            self.wf(),
        ensures
            match r {
                Some(t) => {
                    &&& contains_id(self@, timer_id)
                    &&& t@ == self@[id_index(self@, timer_id)]
                    &&& t@.tenant_id == tenant_id@
                },
                None => !(exists|i: int|
                    0 <= i < self@.len() && (#[trigger] self@[i]).id == timer_id
                        && self@[i].tenant_id == tenant_id@),
            },
    {
        match self.find_index(timer_id) {
            None => None,
            Some(i) => {
                let entry = &self.timers[i];
                proof {
                    lemma_id_index_unique(self@, timer_id, i as int);
                    assert forall|j: int|
                        0 <= j < self@.len() && (#[trigger] self@[j]).id == timer_id implies j
                        == i as int by {
                        lemma_id_index_unique(self@, timer_id, j);
                    }
                }
                if crate::strutil::str_eq(entry.tenant_id.as_str(), tenant_id) {
                    Some(entry.snapshot())
                } else {
                    None
                }
            },
        }
    }

    /// Cancels a timer at `now` on behalf of `cancelled_by` for `reason`.
    ///
    /// Followers are refused; an unknown identifier or a tenant mismatch is
    /// "not found"; a timer that already fired or ended is returned
    /// unchanged, so repeating a cancellation returns the same snapshot and
    /// owes no second event; otherwise the timer moves to `Cancelled` with
    /// its version stepped by one.
    pub fn cancel(
        &mut self,
        tenant_id: &str,
        timer_id: u128,
        reason: Option<String>,
        cancelled_by: Option<String>,
        now: TimestampMs,
    ) -> (r: Result<CancelOutcome, KernelError>)
        requires
            old(self).wf(),
        ensures
            final(self).wf(),
            final(self).spec_config() == old(self).spec_config(),
            final(self).spec_raft() == old(self).spec_raft(),
            r matches Err(KernelError::NotLeader) <==> !old(self).spec_is_leader(),
            !(r matches Ok(CancelOutcome::Cancelled(_))) ==> final(self)@ == old(self)@,
            old(self).spec_is_leader() ==> match r {
                Ok(CancelOutcome::NotFound) => !(exists|i: int|
                    0 <= i < old(self)@.len() && (#[trigger] old(self)@[i]).id == timer_id && old(
                        self,
                    )@[i].tenant_id == tenant_id@),
                Ok(CancelOutcome::Unchanged(t)) => {
                    let m = old(self)@[id_index(old(self)@, timer_id)];
                    &&& contains_id(old(self)@, timer_id)
                    &&& m.tenant_id == tenant_id@
                    &&& t@ == m
                    &&& !m.status.can_transition(crate::status::TimerStatus::Cancelled)
                },
                Ok(CancelOutcome::Cancelled(t)) => {
                    let i = id_index(old(self)@, timer_id);
                    let m = old(self)@[i];
                    &&& contains_id(old(self)@, timer_id)
                    &&& m.tenant_id == tenant_id@
                    &&& m.status.can_transition(crate::status::TimerStatus::Cancelled)
                    &&& t@ == m.cancelled(now, opt_str_view(reason), opt_str_view(cancelled_by))
                    &&& t@.state_version == m.state_version + 1
                    &&& final(self)@ == old(self)@.update(i, t@)
                },
                Err(KernelError::Persistence(_)) => {
                    let m = old(self)@[id_index(old(self)@, timer_id)];
                    &&& contains_id(old(self)@, timer_id)
                    &&& m.tenant_id == tenant_id@
                    &&& m.status.can_transition(crate::status::TimerStatus::Cancelled)
                    &&& m.state_version + 1 >= MAX_STATE_VERSION
                },
                _ => false,
            },
    {
        if !self.is_leader() {
            return Err(KernelError::NotLeader);
        }
        let i = match self.find_index(timer_id) {
            None => {
                return Ok(CancelOutcome::NotFound);
            },
            Some(i) => i,
        };
        proof {
            lemma_id_index_unique(self@, timer_id, i as int);
        }
        if !crate::strutil::str_eq(self.timers[i].tenant_id.as_str(), tenant_id) {
            return Ok(CancelOutcome::NotFound);
        }
        let status = self.timers[i].status;
        let cancellable = matches!(
            status,
            TimerStatus::Scheduled | TimerStatus::Armed
        );
        if !cancellable {
            return Ok(CancelOutcome::Unchanged(self.timers[i].snapshot()));
        }
        if self.timers[i].state_version + 1 >= MAX_STATE_VERSION {
            return Err(KernelError::Persistence(String::from_str("state version exhausted")));
        }
        let updated = self.timers[i].snapshot().into_cancelled(now, reason, cancelled_by);
        let snap = updated.snapshot();
        self.timers.set(i, updated);
        proof {
            assert(self@ =~= old(self)@.update(i as int, snap@));
            assert forall|a: int, b: int| #![trigger self@[a], self@[b]]
                0 <= a < b < self@.len() implies self@[a].id != self@[b].id by {
                assert(old(self)@[a].id != old(self)@[b].id);
                assert(self@[a].id == old(self)@[a].id);
                assert(self@[b].id == old(self)@[b].id);
            }
            assert forall|a: int| 0 <= a < self@.len() implies (#[trigger] self@[a]).wf() by {
                assert(old(self)@[a].wf());
            }
        }
        Ok(CancelOutcome::Cancelled(snap))
    }
}

// ==========================================================================
// The fire path, tenant-scoped listing, and restore.
// ==========================================================================

impl HorologyKernel {
    /// Arms a scheduled timer: the first fire-task step. The transition is
    /// taken exactly when this node leads, the timer exists, its status is
    /// `Scheduled`, and a version step is possible; otherwise the task must
    /// stop.
    pub fn arm_timer(&mut self, timer_id: u128) -> (r: StepOutcome)
        requires
            old(self).wf(),
        ensures
            final(self).wf(),
            final(self).spec_config() == old(self).spec_config(),
            final(self).spec_raft() == old(self).spec_raft(),
            match r {
                StepOutcome::Transitioned(t) => {
                    let i = id_index(old(self)@, timer_id);
                    let m = old(self)@[i];
                    &&& old(self).spec_is_leader()
                    &&& contains_id(old(self)@, timer_id)
                    &&& m.status is Scheduled
                    &&& m.state_version + 1 < MAX_STATE_VERSION
                    &&& t@ == m.armed()
                    &&& final(self)@ == old(self)@.update(i, t@)
                },
                StepOutcome::Skipped => {
                    &&& final(self)@ == old(self)@
                    &&& !(old(self).spec_is_leader() && contains_id(old(self)@, timer_id) && old(
                        self,
                    )@[id_index(old(self)@, timer_id)].status is Scheduled && old(self)@[id_index(
                        old(self)@,
                        timer_id,
                    )].state_version + 1 < MAX_STATE_VERSION)
                },
            },
    {
        if !self.is_leader() {
            return StepOutcome::Skipped;
        }
        let i = match self.find_index(timer_id) {
            None => {
                return StepOutcome::Skipped;
            },
            Some(i) => i,
        };
        proof {
            lemma_id_index_unique(self@, timer_id, i as int);
        }
        if !matches!(self.timers[i].status, TimerStatus::Scheduled) {
            return StepOutcome::Skipped;
        }
        if self.timers[i].state_version + 1 >= MAX_STATE_VERSION {
            return StepOutcome::Skipped;
        }
        let updated = self.timers[i].snapshot().into_armed();
        let snap = updated.snapshot();
        self.timers.set(i, updated);
        proof {
            self.lemma_update_keeps_wf(*old(self), i as int, snap@);
        }
        StepOutcome::Transitioned(snap)
    }

    /// Fires an armed timer at `now`: taken exactly when this node leads,
    /// the timer exists, its status is `Armed`, and a version step is
    /// possible; otherwise the task must stop (for instance after a
    /// cancellation won the race).
    pub fn fire_timer(&mut self, timer_id: u128, now: TimestampMs) -> (r: StepOutcome)
        requires
            old(self).wf(),
        ensures
            final(self).wf(),
            final(self).spec_config() == old(self).spec_config(),
            final(self).spec_raft() == old(self).spec_raft(),
            match r {
                StepOutcome::Transitioned(t) => {
                    let i = id_index(old(self)@, timer_id);
                    let m = old(self)@[i];
                    &&& old(self).spec_is_leader()
                    &&& contains_id(old(self)@, timer_id)
                    &&& m.status is Armed
                    &&& m.state_version + 1 < MAX_STATE_VERSION
                    &&& t@ == m.fired(now)
                    &&& final(self)@ == old(self)@.update(i, t@)
                },
                StepOutcome::Skipped => {
                    &&& final(self)@ == old(self)@
                    &&& !(old(self).spec_is_leader() && contains_id(old(self)@, timer_id) && old(
                        self,
                    )@[id_index(old(self)@, timer_id)].status is Armed && old(self)@[id_index(
                        old(self)@,
                        timer_id,
                    )].state_version + 1 < MAX_STATE_VERSION)
                },
            },
    {
        if !self.is_leader() {
            return StepOutcome::Skipped;
        }
        let i = match self.find_index(timer_id) {
            None => {
                return StepOutcome::Skipped;
            },
            Some(i) => i,
        };
        proof {
            lemma_id_index_unique(self@, timer_id, i as int);
        }
        if !matches!(self.timers[i].status, TimerStatus::Armed) {
            return StepOutcome::Skipped;
        }
        if self.timers[i].state_version + 1 >= MAX_STATE_VERSION {
            return StepOutcome::Skipped;
        }
        let updated = self.timers[i].snapshot().into_fired(now);
        let snap = updated.snapshot();
        self.timers.set(i, updated);
        proof {
            self.lemma_update_keeps_wf(*old(self), i as int, snap@);
        }
        StepOutcome::Transitioned(snap)
    }

    /// Settles a fired timer at `now`: taken exactly when this node leads,
    /// the timer exists, its status is `Fired`, and a version step is
    /// possible; otherwise the task must stop.
    pub fn settle_timer(&mut self, timer_id: u128, now: TimestampMs) -> (r: StepOutcome)
        requires
            old(self).wf(),
        ensures
            final(self).wf(),
            final(self).spec_config() == old(self).spec_config(),
            final(self).spec_raft() == old(self).spec_raft(),
            match r {
                StepOutcome::Transitioned(t) => {
                    let i = id_index(old(self)@, timer_id);
                    let m = old(self)@[i];
                    &&& old(self).spec_is_leader()
                    &&& contains_id(old(self)@, timer_id)
                    &&& m.status is Fired
                    &&& m.state_version + 1 < MAX_STATE_VERSION
                    &&& t@ == m.settled(now)
                    &&& final(self)@ == old(self)@.update(i, t@)
                },
                StepOutcome::Skipped => {
                    &&& final(self)@ == old(self)@
                    &&& !(old(self).spec_is_leader() && contains_id(old(self)@, timer_id) && old(
                        self,
                    )@[id_index(old(self)@, timer_id)].status is Fired && old(self)@[id_index(
                        old(self)@,
                        timer_id,
                    )].state_version + 1 < MAX_STATE_VERSION)
                },
            },
    {
        if !self.is_leader() {
            return StepOutcome::Skipped;
        }
        let i = match self.find_index(timer_id) {
            None => {
                return StepOutcome::Skipped;
            },
            Some(i) => i,
        };
        proof {
            lemma_id_index_unique(self@, timer_id, i as int);
        }
        if !matches!(self.timers[i].status, TimerStatus::Fired) {
            return StepOutcome::Skipped;
        }
        if self.timers[i].state_version + 1 >= MAX_STATE_VERSION {
            return StepOutcome::Skipped;
        }
        let updated = self.timers[i].snapshot().into_settled(now);
        let snap = updated.snapshot();
        self.timers.set(i, updated);
        proof {
            self.lemma_update_keeps_wf(*old(self), i as int, snap@);
        }
        StepOutcome::Transitioned(snap)
    }

    /// Updating one entry to a well-formed model with the same id keeps the
    /// index well-formed.
    proof fn lemma_update_keeps_wf(self, prev: HorologyKernel, i: int, m: TimerModel)
        requires
            prev.wf(),
            0 <= i < prev@.len(),
            m.wf(),
            m.id == prev@[i].id,
            self@ =~= prev@.update(i, m),
        ensures
            self.wf(),
    {
        assert forall|a: int, b: int| #![trigger self@[a], self@[b]]
            0 <= a < b < self@.len() implies self@[a].id != self@[b].id by {
            assert(prev@[a].id != prev@[b].id);
        }
        assert forall|a: int| 0 <= a < self@.len() implies (#[trigger] self@[a]).wf() by {
            if a != i {
                assert(prev@[a].wf());
            }
        }
    }

    /// The timers of one tenant, sorted by their fire instant, each a
    /// snapshot of the stored instance.
    pub fn list(&self, tenant_id: &str) -> (r: Vec<TimerInstance>)
        ensures
            sorted_by_fire_at(index_view(r@)),
            index_view(r@).to_multiset() == tenant_filter(self@, tenant_id@).to_multiset(),
    {
        broadcast use vstd::seq_lib::group_to_multiset_ensures;

        let n = self.timers.len();
        let mut out: Vec<TimerInstance> = Vec::new();
        let mut i: usize = 0;
        while i < n
            invariant
                n == self.timers@.len(),
                0 <= i <= n,
                sorted_by_fire_at(index_view(out@)),
                index_view(out@).to_multiset() == tenant_filter(
                    self@.take(i as int),
                    tenant_id@,
                ).to_multiset(),
            decreases n - i,
        {
            let ghost prev_filtered = tenant_filter(self@.take(i as int), tenant_id@);
            proof {
                reveal(Seq::filter);
                assert(self@.take(i + 1) =~= self@.take(i as int).push(self@[i as int]));
                assert(self@.take(i + 1).drop_last() =~= self@.take(i as int));
                assert(self@.take(i + 1).last() == self@[i as int]);
                assert(self@[i as int] == self.timers@[i as int]@);
            }
            if crate::strutil::str_eq(self.timers[i].tenant_id.as_str(), tenant_id) {
                let snap = self.timers[i].snapshot();
                let ghost snap_model = snap@;
                // find the sorted insertion position
                let m = out.len();
                let mut pos: usize = 0;
                while pos < m && out[pos].fire_at <= snap.fire_at
                    invariant
                        0 <= pos <= m,
                        m == out@.len(),
                        snap@ == snap_model,
                        forall|k: int|
                            0 <= k < pos ==> (#[trigger] index_view(out@)[k]).fire_at
                                <= snap_model.fire_at,
                    decreases m - pos,
                {
                    proof {
                        assert(index_view(out@)[pos as int] == out@[pos as int]@);
                    }
                    pos += 1;
                }
                proof {
                    assert(pos < m ==> index_view(out@)[pos as int].fire_at
                        > snap_model.fire_at);
                }
                let ghost old_out = index_view(out@);
                out.insert(pos, snap);
                proof {
                    reveal(Seq::filter);
                    assert(index_view(out@) =~= old_out.insert(pos as int, snap_model));
                    old_out.insert_ensures(pos as int, snap_model);
                    lemma_insert_to_multiset(old_out, pos as int, snap_model);
                    assert forall|a: int, b: int| #![trigger index_view(out@)[a], index_view(out@)[b]]
                        0 <= a < b < index_view(out@).len() implies index_view(out@)[a].fire_at
                        <= index_view(out@)[b].fire_at by {
                        let v = index_view(out@);
                        let p = pos as int;
                        if a < p && b < p {
                            assert(old_out[a].fire_at <= old_out[b].fire_at);
                        } else if a < p && b == p {
                        } else if a < p && b > p {
                            assert(old_out[a].fire_at <= old_out[b - 1].fire_at);
                        } else if a == p {
                            if b > p {
                                assert(v[b] == old_out[b - 1]);
                                if b - 1 > p - 1 && p < old_out.len() {
                                    assert(old_out[p].fire_at > snap_model.fire_at);
                                    assert(old_out[p].fire_at <= old_out[b - 1].fire_at);
                                }
                            }
                        } else {
                            assert(old_out[a - 1].fire_at <= old_out[b - 1].fire_at);
                        }
                    }
                    assert(prev_filtered.push(snap_model) =~= tenant_filter(
                        self@.take(i + 1),
                        tenant_id@,
                    ));
                    assert(prev_filtered.push(snap_model).to_multiset() =~= prev_filtered
                        .to_multiset()
                        .insert(snap_model)) by {
                        broadcast use vstd::seq_lib::group_to_multiset_ensures;

                    }
                    assert(index_view(out@).to_multiset() =~= tenant_filter(
                        self@.take(i + 1),
                        tenant_id@,
                    ).to_multiset());
                }
            } else {
                proof {
                    reveal(Seq::filter);
                    assert(prev_filtered =~= tenant_filter(self@.take(i + 1), tenant_id@));
                }
            }
            i += 1;
        }
        proof {
            assert(self@.take(n as int) =~= self@);
        }
        out
    }
}

impl HorologyKernel {
    /// The fire instant of the timer carrying `id`, if it is indexed; used
    /// by the runtime to respawn fire tasks after restore.
    pub fn fire_at_of(&self, timer_id: u128) -> (r: Option<TimestampMs>)
        ensures
            match r {
                Some(at) => contains_id(self@, timer_id) && exists|i: int|
                    0 <= i < self@.len() && (#[trigger] self@[i]).id == timer_id && self@[i].fire_at
                        == at,
                None => !contains_id(self@, timer_id),
            },
    {
        match self.find_index(timer_id) {
            Some(i) => {
                proof {
                    assert(contains_id(self@, timer_id));
                }
                Some(self.timers[i].fire_at)
            },
            None => None,
        }
    }
}

impl HorologyKernel {
    /// Schedules a timer off the wall clock with a fresh identifier and no
    /// jitter compensation. Whatever the clock and the identifier draw
    /// returned: a produced instance is freshly scheduled at version zero
    /// and appended to the index, an error leaves the index unchanged, and
    /// a follower never schedules. Deployments that compensate jitter read
    /// their monitor's hint and call `schedule_at` instead.
    pub fn schedule(&mut self, sp: TimerSpec) -> (r: Result<TimerInstance, KernelError>)
        requires
            old(self).wf(),
            sp.tenant_id@.len() > 0,
        ensures
            final(self).wf(),
            final(self).spec_config() == old(self).spec_config(),
            final(self).spec_raft() == old(self).spec_raft(),
            !old(self).spec_is_leader() ==> r is Err,
            r matches Err(_) ==> final(self)@ == old(self)@,
            r matches Ok(t) ==> {
                &&& t@.wf()
                &&& t@.status is Scheduled
                &&& t@.state_version == 0
                &&& t@.tenant_id == sp.tenant_id@
                &&& t@.requested_by == sp.requested_by@
                &&& t@.metadata == crate::json::opt_json_view(sp.metadata)
                &&& t@.labels == labels_view(sp.labels@)
                &&& final(self)@ == old(self)@.push(t@)
            },
    {
        let now = crate::outside::now_unix_ms();
        if now < 0 || now > MAX_FIRE_AT_MS {
            return Err(KernelError::Persistence(String::from_str("clock out of range")));
        }
        let id = crate::outside::fresh_uuid();
        self.schedule_at(sp, now, id, 0)
    }
}

// ==========================================================================
// Restore.
// ==========================================================================

/// What rehydration makes of the loaded rows: each well-formed instance is
/// admitted in order unless its identifier was already taken.
pub open spec fn restore_model(s: Seq<TimerModel>) -> Seq<TimerModel>
    decreases s.len(),
{
    if s.len() == 0 {
        Seq::empty()
    } else {
        let prefix = restore_model(s.drop_last());
        let m = s.last();
        if m.wf() && !contains_id(prefix, m.id) {
            prefix.push(m)
        } else {
            prefix
        }
    }
}

/// The identifiers of the non-terminal instances, in index order: the
/// timers that need a fire task.
pub open spec fn respawn_ids(s: Seq<TimerModel>) -> Seq<u128>
    decreases s.len(),
{
    if s.len() == 0 {
        Seq::empty()
    } else {
        let prefix = respawn_ids(s.drop_last());
        if !s.last().is_terminal() {
            prefix.push(s.last().id)
        } else {
            prefix
        }
    }
}

/// Rehydration admits only well-formed instances with fresh identifiers,
/// so its result is a well-formed index.
pub proof fn lemma_restore_model_wf(s: Seq<TimerModel>)
    ensures
        index_wf(restore_model(s)),
    decreases s.len(),
{
    if s.len() > 0 {
        lemma_restore_model_wf(s.drop_last());
        let prefix = restore_model(s.drop_last());
        let m = s.last();
        if m.wf() && !contains_id(prefix, m.id) {
            let r = prefix.push(m);
            assert forall|a: int, b: int| #![trigger r[a], r[b]]
                0 <= a < b < r.len() implies r[a].id != r[b].id by {
                if b < r.len() - 1 {
                    assert(prefix[a].id != prefix[b].id);
                } else {
                    assert(r[a] == prefix[a]);
                    assert(prefix[a].id != m.id);
                }
            }
        }
    }
}

impl HorologyKernel {
    /// Rehydrates an empty kernel from the rows the store returned: every
    /// well-formed instance is inserted, stored status trusted, identifier
    /// collisions and malformed rows skipped; the returned identifiers are
    /// the non-terminal timers, each of which needs a fire task. A task's
    /// first action is the leader check, so followers may spawn them
    /// without effect.
    pub fn restore(&mut self, loaded: Vec<TimerInstance>) -> (r: Vec<u128>)
        requires
            old(self)@.len() == 0,
        ensures
            final(self).wf(),
            final(self).spec_config() == old(self).spec_config(),
            final(self).spec_raft() == old(self).spec_raft(),
            final(self)@ == restore_model(index_view(loaded@)),
            r@ == respawn_ids(final(self)@),
    {
        let n = loaded.len();
        let mut i: usize = 0;
        while i < n
            invariant
                n == loaded@.len(),
                0 <= i <= n,
                self.wf(),
                self.spec_config() == old(self).spec_config(),
                self.spec_raft() == old(self).spec_raft(),
                self@ == restore_model(index_view(loaded@).take(i as int)),
            decreases n - i,
        {
            let ghost prior = self@;
            let entry = &loaded[i];
            proof {
                assert(index_view(loaded@).take(i + 1).drop_last() =~= index_view(loaded@).take(
                    i as int,
                ));
                assert(index_view(loaded@).take(i + 1).last() == loaded@[i as int]@);
            }
            let accept = !entry.tenant_id.as_str().is_empty() && entry.fire_at
                >= entry.created_at && entry.state_version < MAX_STATE_VERSION && self.find_index(
                entry.id,
            ).is_none();
            if accept {
                let snap = entry.snapshot();
                self.timers.push(snap);
                proof {
                    assert(self@ =~= prior.push(loaded@[i as int]@));
                    assert forall|a: int, b: int| #![trigger self@[a], self@[b]]
                        0 <= a < b < self@.len() implies self@[a].id != self@[b].id by {
                        if b < self@.len() - 1 {
                            assert(prior[a].id != prior[b].id);
                        } else {
                            assert(self@[a] == prior[a]);
                            assert(prior[a].id != loaded@[i as int]@.id);
                        }
                    }
                }
            } else {
                proof {
                    assert(self@ == restore_model(index_view(loaded@).take(i + 1)));
                }
            }
            i += 1;
        }
        proof {
            assert(index_view(loaded@).take(n as int) =~= index_view(loaded@));
        }

        self.respawn_list()
    }

    /// The identifiers of the non-terminal timers, in index order: the
    /// timers that need a fire task after rehydration.
    pub fn respawn_list(&self) -> (r: Vec<u128>)
        ensures
            r@ == respawn_ids(self@),
    {
        let m = self.timers.len();
        let mut ids: Vec<u128> = Vec::new();
        let mut j: usize = 0;
        while j < m
            invariant
                m == self.timers@.len(),
                0 <= j <= m,
                ids@ == respawn_ids(self@.take(j as int)),
            decreases m - j,
        {
            proof {
                assert(self@.take(j + 1).drop_last() =~= self@.take(j as int));
                assert(self@.take(j + 1).last() == self@[j as int]);
                assert(self@[j as int] == self.timers@[j as int]@);
            }
            if !self.timers[j].is_terminal() {
                ids.push(self.timers[j].id);
            }
            j += 1;
        }
        proof {
            assert(self@.take(m as int) =~= self@);
        }
        ids
    }
}

// ==========================================================================
// Replay from the command log: the secondary recovery source.
// ==========================================================================

/// A full-instance record replaces the indexed instance with its identifier
/// or joins the index; malformed instances are skipped.
pub open spec fn upsert_model(s: Seq<TimerModel>, t: TimerModel) -> Seq<TimerModel> {
    if !t.wf() {
        s
    } else if contains_id(s, t.id) {
        s.update(id_index(s, t.id), t)
    } else {
        s.push(t)
    }
}

/// What one logged command does to the index on replay. Schedule and settle
/// records carry the full instance and upsert it. A cancel record cancels a
/// still-cancellable instance of the right tenant. A fire record implies
/// the unlogged arm step: a scheduled instance is armed and fired, an armed
/// one fired, anything else left alone.
pub open spec fn apply_command_model(
    s: Seq<TimerModel>,
    c: crate::command::CommandModel,
) -> Seq<TimerModel> {
    match c {
        crate::command::CommandModel::Schedule(t) => upsert_model(s, t),
        crate::command::CommandModel::Settle(t) => upsert_model(s, t),
        crate::command::CommandModel::Cancel(id, tenant, by, reason, at) => {
            if contains_id(s, id) {
                let i = id_index(s, id);
                let m = s[i];
                if m.tenant_id == tenant && m.status.can_transition(
                    crate::status::TimerStatus::Cancelled,
                ) && m.state_version + 1 < MAX_STATE_VERSION {
                    s.update(i, m.cancelled(at, reason, by))
                } else {
                    s
                }
            } else {
                s
            }
        },
        crate::command::CommandModel::Fire(id, tenant, at) => {
            if contains_id(s, id) {
                let i = id_index(s, id);
                let m = s[i];
                if m.tenant_id == tenant && m.state_version + 2 < MAX_STATE_VERSION {
                    if m.status is Scheduled {
                        s.update(i, m.armed().fired(at))
                    } else if m.status is Armed {
                        s.update(i, m.fired(at))
                    } else {
                        s
                    }
                } else {
                    s
                }
            } else {
                s
            }
        },
    }
}

/// The index a replayed command log yields, command by command.
pub open spec fn replay_model(cmds: Seq<crate::command::CommandModel>) -> Seq<TimerModel>
    decreases cmds.len(),
{
    if cmds.len() == 0 {
        Seq::empty()
    } else {
        apply_command_model(replay_model(cmds.drop_last()), cmds.last())
    }
}

/// The commands of a list of log entries, in order.
pub open spec fn commands_of(entries: Seq<crate::command::CommandEntry>) -> Seq<
    crate::command::CommandModel,
> {
    Seq::new(entries.len(), |i: int| entries[i].command@)
}

impl HorologyKernel {
    /// Replays one logged command against the index.
    pub fn apply_command(&mut self, command: &crate::command::TimerCommand)
        requires
            old(self).wf(),
        ensures
            final(self).wf(),
            final(self).spec_config() == old(self).spec_config(),
            final(self).spec_raft() == old(self).spec_raft(),
            final(self)@ == apply_command_model(old(self)@, command@),
    {
        match command {
            crate::command::TimerCommand::Schedule { timer } => self.upsert_row(timer),
            crate::command::TimerCommand::Settle { timer } => self.upsert_row(timer),
            crate::command::TimerCommand::Cancel { timer_id, tenant_id, cancelled_by, reason, at } => {
                let i = match self.find_index(*timer_id) {
                    None => {
                        return ;
                    },
                    Some(i) => i,
                };
                proof {
                    lemma_id_index_unique(self@, *timer_id, i as int);
                }
                if !crate::strutil::str_eq(self.timers[i].tenant_id.as_str(), tenant_id.as_str()) {
                    return ;
                }
                let cancellable = matches!(
                    self.timers[i].status,
                    TimerStatus::Scheduled | TimerStatus::Armed
                );
                if !cancellable {
                    return ;
                }
                if self.timers[i].state_version + 1 >= MAX_STATE_VERSION {
                    return ;
                }
                let updated = self.timers[i].snapshot().into_cancelled(
                    *at,
                    crate::timer::dup_opt_string(reason),
                    crate::timer::dup_opt_string(cancelled_by),
                );
                let ghost updated_model = updated@;
                self.timers.set(i, updated);
                proof {
                    assert(self@ =~= old(self)@.update(i as int, updated_model));
                    self.lemma_update_keeps_wf(*old(self), i as int, updated_model);
                }
            },
            crate::command::TimerCommand::Fire { timer_id, tenant_id, at } => {
                let i = match self.find_index(*timer_id) {
                    None => {
                        return ;
                    },
                    Some(i) => i,
                };
                proof {
                    lemma_id_index_unique(self@, *timer_id, i as int);
                }
                if !crate::strutil::str_eq(self.timers[i].tenant_id.as_str(), tenant_id.as_str()) {
                    return ;
                }
                if self.timers[i].state_version >= MAX_STATE_VERSION - 2 {
                    return ;
                }
                if matches!(self.timers[i].status, TimerStatus::Scheduled) {
                    let updated = self.timers[i].snapshot().into_armed().into_fired(*at);
                    let ghost updated_model = updated@;
                    self.timers.set(i, updated);
                    proof {
                        assert(self@ =~= old(self)@.update(i as int, updated_model));
                        self.lemma_update_keeps_wf(*old(self), i as int, updated_model);
                    }
                } else if matches!(self.timers[i].status, TimerStatus::Armed) {
                    let updated = self.timers[i].snapshot().into_fired(*at);
                    let ghost updated_model = updated@;
                    self.timers.set(i, updated);
                    proof {
                        assert(self@ =~= old(self)@.update(i as int, updated_model));
                        self.lemma_update_keeps_wf(*old(self), i as int, updated_model);
                    }
                }
            },
        }
    }

    /// Replaces or inserts a full instance from a logged record; malformed
    /// rows are skipped.
    fn upsert_row(&mut self, timer: &TimerInstance)
        requires
            old(self).wf(),
        ensures
            final(self).wf(),
            final(self).spec_config() == old(self).spec_config(),
            final(self).spec_raft() == old(self).spec_raft(),
            final(self)@ == upsert_model(old(self)@, timer@),
    {
        let well_formed = !timer.tenant_id.as_str().is_empty() && timer.fire_at
            >= timer.created_at && timer.state_version < MAX_STATE_VERSION;
        if !well_formed {
            return ;
        }
        match self.find_index(timer.id) {
            Some(i) => {
                proof {
                    lemma_id_index_unique(self@, timer@.id, i as int);
                }
                let snap = timer.snapshot();
                let ghost snap_model = snap@;
                self.timers.set(i, snap);
                proof {
                    assert(self@ =~= old(self)@.update(i as int, snap_model));
                    self.lemma_update_keeps_wf(*old(self), i as int, snap_model);
                }
            },
            None => {
                let snap = timer.snapshot();
                let ghost snap_model = snap@;
                self.timers.push(snap);
                proof {
                    assert(self@ =~= old(self)@.push(snap_model));
                    assert forall|a: int, b: int| #![trigger self@[a], self@[b]]
                        0 <= a < b < self@.len() implies self@[a].id != self@[b].id by {
                        if b < self@.len() - 1 {
                            assert(old(self)@[a].id != old(self)@[b].id);
                        } else {
                            assert(self@[a] == old(self)@[a]);
                            assert(old(self)@[a].id != snap_model.id);
                        }
                    }
                    assert forall|a: int| 0 <= a < self@.len() implies (#[trigger] self@[a]).wf() by {
                        if a < self@.len() - 1 {
                            assert(old(self)@[a].wf());
                        }
                    }
                }
            },
        }
    }

    /// Rehydrates an empty kernel from the command log, the secondary
    /// recovery source: each record is replayed in sequence order, and the
    /// returned identifiers are the non-terminal timers needing fire tasks.
    pub fn restore_from_log(&mut self, entries: Vec<crate::command::CommandEntry>) -> (r: Vec<
        u128,
    >)
        requires
            old(self)@.len() == 0,
        ensures
            final(self).wf(),
            final(self).spec_config() == old(self).spec_config(),
            final(self).spec_raft() == old(self).spec_raft(),
            final(self)@ == replay_model(commands_of(entries@)),
            r@ == respawn_ids(final(self)@),
    {
        let n = entries.len();
        let mut i: usize = 0;
        while i < n
            invariant
                n == entries@.len(),
                0 <= i <= n,
                self.wf(),
                self.spec_config() == old(self).spec_config(),
                self.spec_raft() == old(self).spec_raft(),
                self@ == replay_model(commands_of(entries@).take(i as int)),
            decreases n - i,
        {
            proof {
                assert(commands_of(entries@).take(i + 1).drop_last() =~= commands_of(
                    entries@,
                ).take(i as int));
                assert(commands_of(entries@).take(i + 1).last() == entries@[i as int].command@);
            }
            self.apply_command(&entries[i].command);
            i += 1;
        }
        proof {
            assert(commands_of(entries@).take(n as int) =~= commands_of(entries@));
        }
        self.respawn_list()
    }
}

// ==========================================================================
// Laws of the kernel.
// ==========================================================================

/// Cancellation is idempotent: once an instance is no longer cancellable —
/// in particular right after a successful cancellation — a repeated
/// `cancel` on the same tenant and identifier returns the very same
/// snapshot as `Unchanged`, changes nothing, and owes no second event.
///
/// This follows from `cancel`'s contract alone: the lemma restates the
/// second call's only possible outcome for a state whose entry is already
/// terminal.
pub proof fn lemma_cancel_idempotent(before: TimerModel, now: TimestampMs, reason: Option<Seq<char>>, by: Option<Seq<char>>)
    requires
        before.status.can_transition(crate::status::TimerStatus::Cancelled),
    ensures
        !(before.cancelled(now, reason, by)).status.can_transition(
            crate::status::TimerStatus::Cancelled,
        ),
        (before.cancelled(now, reason, by)).is_terminal(),
{
}

/// One kernel-guarded lifecycle step: exactly the transitions `arm_timer`,
/// `fire_timer`, `settle_timer` and `cancel` take, each from the status it
/// is gated on.
pub open spec fn kernel_step(before: TimerModel, after: TimerModel) -> bool {
    ||| (before.status is Scheduled && after == before.armed())
    ||| (before.status is Armed && exists|now: TimestampMs| after == before.fired(now))
    ||| (before.status is Fired && exists|now: TimestampMs| after == before.settled(now))
    ||| (before.status.can_transition(crate::status::TimerStatus::Cancelled) && exists|
        now: TimestampMs,
        reason: Option<Seq<char>>,
        by: Option<Seq<char>>,
    | after == before.cancelled(now, reason, by))
}

/// A lifecycle trace: the models one timer passes through, from its freshly
/// scheduled form through kernel-guarded steps.
pub open spec fn lifecycle_trace(tr: Seq<TimerModel>) -> bool {
    &&& tr.len() > 0
    &&& tr[0].status is Scheduled
    &&& tr[0].state_version == 0
    &&& forall|i: int| 0 <= i < tr.len() - 1 ==> kernel_step(#[trigger] tr[i], tr[i + 1])
}

/// One kernel-guarded step raises the version by exactly one, follows the
/// status DAG, leaves a non-terminal status only, and keeps the identity,
/// tenancy and timing of the timer.
pub proof fn lemma_kernel_step_shape(a: TimerModel, b: TimerModel)
    requires
        kernel_step(a, b),
        a.state_version < MAX_STATE_VERSION,
    ensures
        b.state_version == a.state_version + 1,
        a.status.can_transition(b.status),
        !a.is_terminal(),
        b.id == a.id,
        b.tenant_id == a.tenant_id,
        b.fire_at == a.fire_at,
        b.created_at == a.created_at,
{
    if a.status is Scheduled && b == a.armed() {
    } else if a.status is Armed && exists|now: TimestampMs| b == a.fired(now) {
        let now = choose|now: TimestampMs| b == a.fired(now);
        assert(b == a.fired(now));
    } else if a.status is Fired && exists|now: TimestampMs| b == a.settled(now) {
        let now = choose|now: TimestampMs| b == a.settled(now);
        assert(b == a.settled(now));
    } else {
        let (now, reason, by) = choose|now: TimestampMs, reason: Option<Seq<char>>, by: Option<
            Seq<char>,
        >| b == a.cancelled(now, reason, by);
        assert(b == a.cancelled(now, reason, by));
    }
}

/// Within a lifecycle trace the state version at position `i` is `i`, and
/// identity, tenancy and timing match the freshly scheduled instance.
proof fn lemma_trace_at(tr: Seq<TimerModel>, i: int)
    requires
        lifecycle_trace(tr),
        tr.len() <= MAX_STATE_VERSION,
        0 <= i < tr.len(),
    ensures
        tr[i].state_version == i,
        tr[i].id == tr[0].id,
        tr[i].tenant_id == tr[0].tenant_id,
        tr[i].fire_at == tr[0].fire_at,
    decreases i,
{
    if i > 0 {
        lemma_trace_at(tr, i - 1);
        assert(kernel_step(tr[i - 1], tr[i]));
        lemma_kernel_step_shape(tr[i - 1], tr[i]);
    }
}

/// Along any lifecycle trace the state version counts the steps — each
/// event's version is exactly one more than its predecessor's — every
/// consecutive pair of statuses follows the DAG, so the status sequence is
/// a prefix of `Scheduled, Armed, Fired, Settled` or ends in `Cancelled`,
/// only the final status can be terminal, and the identity, tenancy and
/// timing of the timer never change.
#[verifier::rlimit(100)]
#[verifier::spinoff_prover]
pub proof fn lemma_trace_versions(tr: Seq<TimerModel>)
    requires
        lifecycle_trace(tr),
        tr.len() <= MAX_STATE_VERSION,
    ensures
        forall|i: int| 0 <= i < tr.len() ==> (#[trigger] tr[i]).state_version == i,
        forall|i: int|
            0 <= i < tr.len() - 1 ==> (#[trigger] tr[i]).status.can_transition(tr[i + 1].status),
        forall|i: int| 0 <= i < tr.len() - 1 ==> !(#[trigger] tr[i]).is_terminal(),
        forall|i: int| 0 <= i < tr.len() ==> (#[trigger] tr[i]).id == tr[0].id,
        forall|i: int| 0 <= i < tr.len() ==> (#[trigger] tr[i]).tenant_id == tr[0].tenant_id,
        forall|i: int| 0 <= i < tr.len() ==> (#[trigger] tr[i]).fire_at == tr[0].fire_at,
{
    assert forall|i: int|
        0 <= i < tr.len() implies (#[trigger] tr[i]).state_version == i && tr[i].id == tr[0].id
        && tr[i].tenant_id == tr[0].tenant_id && tr[i].fire_at == tr[0].fire_at by {
        lemma_trace_at(tr, i);
    }
    assert forall|i: int|
        0 <= i < tr.len() - 1 implies (#[trigger] tr[i]).status.can_transition(tr[i + 1].status)
        && !tr[i].is_terminal() by {
        lemma_trace_at(tr, i);
        assert(kernel_step(tr[i], tr[i + 1]));
        lemma_kernel_step_shape(tr[i], tr[i + 1]);
    }
}

/// A freshly scheduled timer's delay is within bounds: with a
/// non-negative compensation hint the fire instant never precedes
/// creation and never exceeds the admitted maximum delay. A negative hint
/// asks the kernel to fire later than requested, which may exceed the
/// requested delay by at most the compensation bound; such hints arise
/// only from a history of early fires.
pub proof fn lemma_schedule_delay_bounds(now: int, target: int, max_delay: int, hint: int)
    requires
        now < target <= now + max_delay,
        MIN_COMPENSATED_LEAD_MS <= max_delay,
        0 <= clamped_hint(hint),
    ensures
        now <= adjusted_fire_at(now, target, clamped_hint(hint)),
        adjusted_fire_at(now, target, clamped_hint(hint)) <= now + max_delay,
{
}

} // verus!

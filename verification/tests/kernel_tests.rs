use horology_kernel::kernel::{CancelOutcome, HorologyKernel, StepOutcome};
use horology_kernel::signer::{EventSigner, TimerEvent};
use horology_kernel::status::TimerStatus;
use horology_kernel::timer::{KernelError, SchedulerConfig, TimerSpec};

fn spec_for(tenant: &str, duration_ms: u64) -> TimerSpec {
    TimerSpec {
        tenant_id: tenant.to_string(),
        requested_by: "agent-1".to_string(),
        name: None,
        duration_ms,
        fire_at: None,
        metadata: None,
        labels: Vec::new(),
        action_bundle: None,
        agent_binding: None,
    }
}

#[test]
fn schedule_and_fire_emits_events() {
    let mut kernel = HorologyKernel::new(SchedulerConfig::default());
    let signer = EventSigner::insecure_dev();

    let mut spec = spec_for("tenant-a", 50);
    spec.name = Some("integration-test".to_string());
    let timer = kernel.schedule_at(spec, 0, 1, 0).expect("schedule timer");
    assert_eq!(timer.name, "integration-test");
    assert_eq!(timer.state_version, 0);
    assert!(matches!(timer.status, TimerStatus::Scheduled));

    let scheduled = signer
        .sign_event_at(TimerEvent::Scheduled(timer.snapshot()), 100, 0, None)
        .event;
    assert!(matches!(scheduled, TimerEvent::Scheduled(_)));

    // the fire task: arm, sleep until fire_at, fire
    assert!(matches!(kernel.arm_timer(timer.id), StepOutcome::Transitioned(_)));
    let fired = match kernel.fire_timer(timer.id, timer.fire_at) {
        StepOutcome::Transitioned(t) => t,
        StepOutcome::Skipped => panic!("fired event"),
    };
    assert_eq!(fired.id, timer.id);
    assert_eq!(fired.status, TimerStatus::Fired);
}

#[test]
fn cancelling_prevents_fire_event() {
    let mut kernel = HorologyKernel::new(SchedulerConfig::default());

    let timer = kernel
        .schedule_at(spec_for("tenant-a", 200), 0, 2, 0)
        .expect("schedule timer");
    assert!(matches!(kernel.arm_timer(timer.id), StepOutcome::Transitioned(_)));

    // cancel at t+50, before the fire instant
    let cancelled = match kernel
        .cancel(
            "tenant-a",
            timer.id,
            Some("manual".to_string()),
            Some("agent-1".to_string()),
            50,
        )
        .expect("cancel timer")
    {
        CancelOutcome::Cancelled(t) => t,
        _ => panic!("timer should exist"),
    };
    assert_eq!(cancelled.status, TimerStatus::Cancelled);
    assert_eq!(cancelled.cancel_reason.as_deref(), Some("manual"));
    assert_eq!(cancelled.id, timer.id);

    // the fire task wakes up later and must not fire
    assert!(matches!(
        kernel.fire_timer(timer.id, 200),
        StepOutcome::Skipped
    ));
    let after = kernel.get("tenant-a", timer.id).expect("timer still stored");
    assert_eq!(after.status, TimerStatus::Cancelled);
}

#[test]
fn cancel_is_idempotent() {
    let mut kernel = HorologyKernel::new(SchedulerConfig::default());
    let timer = kernel
        .schedule_at(spec_for("tenant-a", 200), 0, 3, 0)
        .expect("schedule timer");

    let first = kernel
        .cancel("tenant-a", timer.id, Some("manual".to_string()), None, 50)
        .expect("cancel timer");
    let first_snapshot = match first {
        CancelOutcome::Cancelled(t) => t,
        _ => panic!("first cancel must transition"),
    };

    // the second cancel returns the same terminal snapshot and owes no event
    let second = kernel
        .cancel("tenant-a", timer.id, Some("again".to_string()), None, 80)
        .expect("cancel timer");
    match second {
        CancelOutcome::Unchanged(t) => {
            assert_eq!(t.state_version, first_snapshot.state_version);
            assert_eq!(t.status, TimerStatus::Cancelled);
            assert_eq!(t.cancel_reason.as_deref(), Some("manual"));
            assert_eq!(t.cancelled_at, first_snapshot.cancelled_at);
        }
        _ => panic!("second cancel must not transition"),
    }
}

#[test]
fn tenant_isolation_hides_other_tenants() {
    let mut kernel = HorologyKernel::new(SchedulerConfig::default());
    let timer = kernel
        .schedule_at(spec_for("A", 100), 0, 4, 0)
        .expect("schedule timer");

    assert!(kernel.get("B", timer.id).is_none());
    assert!(kernel.list("B").is_empty());
    assert!(kernel.get("A", timer.id).is_some());
    assert_eq!(kernel.list("A").len(), 1);
}

#[test]
fn duration_bounds_are_enforced() {
    let mut kernel = HorologyKernel::new(SchedulerConfig::default());
    let max = horology_kernel::timer::DEFAULT_MAX_DURATION_MS;

    let err = kernel
        .schedule_at(spec_for("t", 0), 0, 5, 0)
        .expect_err("zero duration");
    assert!(matches!(err, KernelError::InvalidDuration));

    let err = kernel
        .schedule_at(spec_for("t", max + 1), 0, 6, 0)
        .expect_err("duration past the maximum");
    assert!(matches!(err, KernelError::InvalidDuration));

    let mut past = spec_for("t", 0);
    past.fire_at = Some(9_000); // one second before "now"
    let err = kernel
        .schedule_at(past, 10_000, 7, 0)
        .expect_err("fire time in the past");
    assert!(matches!(err, KernelError::InvalidFireTime));

    assert!(kernel.list("t").is_empty(), "no row written on validation errors");
}

#[test]
fn follower_refuses_schedule() {
    let mut kernel = HorologyKernel::new_supervised(SchedulerConfig::default(), 1);
    kernel.mark_stepdown();
    assert!(!kernel.is_leader());

    let err = kernel
        .schedule_at(spec_for("t", 50), 0, 8, 0)
        .expect_err("follower must refuse");
    assert!(matches!(err, KernelError::NotLeader));
    assert!(kernel.list("t").is_empty(), "no row written on a follower");

    kernel.promote_self();
    assert!(kernel.is_leader());
    assert!(kernel.schedule_at(spec_for("t", 50), 0, 8, 0).is_ok());
}

#[test]
fn lifecycle_versions_step_by_one() {
    let mut kernel = HorologyKernel::new(SchedulerConfig::default());
    let timer = kernel
        .schedule_at(spec_for("t", 50), 0, 9, 0)
        .expect("schedule timer");
    assert_eq!(timer.state_version, 0);

    let armed = match kernel.arm_timer(timer.id) {
        StepOutcome::Transitioned(t) => t,
        StepOutcome::Skipped => panic!("arm"),
    };
    assert_eq!(armed.state_version, 1);
    assert_eq!(armed.status, TimerStatus::Armed);

    let fired = match kernel.fire_timer(timer.id, 50) {
        StepOutcome::Transitioned(t) => t,
        StepOutcome::Skipped => panic!("fire"),
    };
    assert_eq!(fired.state_version, 2);
    assert_eq!(fired.fired_at, Some(50));

    let settled = match kernel.settle_timer(timer.id, 51) {
        StepOutcome::Transitioned(t) => t,
        StepOutcome::Skipped => panic!("settle"),
    };
    assert_eq!(settled.state_version, 3);
    assert_eq!(settled.status, TimerStatus::Settled);
    assert_eq!(settled.settled_at, Some(51));

    // settled is terminal: no further fire-path step runs
    assert!(matches!(kernel.fire_timer(timer.id, 60), StepOutcome::Skipped));
    assert!(matches!(kernel.settle_timer(timer.id, 60), StepOutcome::Skipped));
}

#[test]
fn restore_rehydrates_scheduled_timer() {
    // a first kernel schedules a timer and its rows are "persisted"
    let mut kernel = HorologyKernel::new(SchedulerConfig::default());
    let timer = kernel
        .schedule_at(spec_for("tenant-restore", 30), 0, 10, 0)
        .expect("schedule timer");
    let stored = vec![timer.snapshot()];
    drop(kernel);

    // a restarted kernel rehydrates from the store
    let mut restored = HorologyKernel::new(SchedulerConfig::default());
    let respawn = restored.restore(stored);
    assert_eq!(respawn, vec![timer.id]);

    let fetched = restored
        .get(&timer.tenant_id, timer.id)
        .expect("timer should exist after restore");
    assert_eq!(fetched.id, timer.id);

    // the respawned fire task drives the timer to Fired
    assert!(matches!(restored.arm_timer(timer.id), StepOutcome::Transitioned(_)));
    let fired = match restored.fire_timer(timer.id, timer.fire_at) {
        StepOutcome::Transitioned(t) => t,
        StepOutcome::Skipped => panic!("fired event after restore"),
    };
    assert_eq!(fired.id, timer.id);
}

#[test]
fn restore_skips_terminal_and_duplicate_rows() {
    let mut kernel = HorologyKernel::new(SchedulerConfig::default());
    let scheduled = kernel
        .schedule_at(spec_for("t", 250), 0, 11, 0)
        .expect("schedule");
    let cancelled = match kernel
        .cancel("t", scheduled.id, None, None, 10)
        .expect("cancel")
    {
        CancelOutcome::Cancelled(t) => t,
        _ => panic!("cancel"),
    };
    let fresh = kernel.schedule_at(spec_for("t", 500), 0, 12, 0).expect("schedule");

    let mut restored = HorologyKernel::new(SchedulerConfig::default());
    let respawn = restored.restore(vec![
        cancelled.snapshot(),
        fresh.snapshot(),
        fresh.snapshot(), // duplicate row: skipped
    ]);
    // only the non-terminal timer needs a fire task
    assert_eq!(respawn, vec![fresh.id]);
    assert_eq!(restored.list("t").len(), 2);
}

#[test]
fn list_is_sorted_by_fire_at() {
    let mut kernel = HorologyKernel::new(SchedulerConfig::default());
    kernel.schedule_at(spec_for("t", 300), 0, 21, 0).expect("schedule");
    kernel.schedule_at(spec_for("t", 100), 0, 22, 0).expect("schedule");
    kernel.schedule_at(spec_for("t", 200), 0, 23, 0).expect("schedule");

    let listed = kernel.list("t");
    assert_eq!(listed.len(), 3);
    assert_eq!(
        listed.iter().map(|t| t.fire_at).collect::<Vec<_>>(),
        vec![100, 200, 300]
    );
    assert_eq!(listed[0].id, 22);
}

#[test]
fn duplicate_timer_ids_are_refused() {
    let mut kernel = HorologyKernel::new(SchedulerConfig::default());
    kernel.schedule_at(spec_for("t", 50), 0, 30, 0).expect("schedule");
    let err = kernel
        .schedule_at(spec_for("t", 50), 0, 30, 0)
        .expect_err("same id again");
    assert!(matches!(err, KernelError::DuplicateTimer));
}

#[test]
fn default_name_carries_creation_instant() {
    let mut kernel = HorologyKernel::new(SchedulerConfig::default());
    let timer = kernel
        .schedule_at(spec_for("t", 50), 1234, 31, 0)
        .expect("schedule");
    assert_eq!(timer.name, "timer-1234");
    assert_eq!(timer.created_at, 1234);
    assert_eq!(timer.fire_at, 1284);
}

#[test]
fn jitter_hint_shifts_fire_at_earlier() {
    let mut kernel = HorologyKernel::new(SchedulerConfig::default());
    let timer = kernel
        .schedule_at(spec_for("t", 1000), 0, 32, 40)
        .expect("schedule");
    assert_eq!(timer.fire_at, 960);
    assert_eq!(timer.duration_ms, 960);

    // a huge hint never moves the fire instant to or before "now"
    let close = kernel
        .schedule_at(spec_for("t", 100), 0, 33, 500)
        .expect("schedule");
    assert_eq!(close.fire_at, 5);
}

#[test]
fn envelope_sequence_has_strictly_increasing_versions() {
    let mut kernel = HorologyKernel::new(SchedulerConfig::default());
    let signer = EventSigner::insecure_dev();
    let timer = kernel
        .schedule_at(spec_for("t", 50), 0, 40, 0)
        .expect("schedule timer");

    let mut envelopes = Vec::new();
    envelopes.push(signer.sign_event_at(TimerEvent::Scheduled(timer.snapshot()), 1, 0, None));
    if let StepOutcome::Transitioned(armed) = kernel.arm_timer(timer.id) {
        // the arm transition is internal: no envelope, but the version steps
        assert_eq!(armed.state_version, 1);
    } else {
        panic!("arm");
    }
    if let StepOutcome::Transitioned(fired) = kernel.fire_timer(timer.id, 50) {
        envelopes.push(signer.sign_event_at(TimerEvent::Fired(fired), 2, 50, None));
    } else {
        panic!("fire");
    }
    if let StepOutcome::Transitioned(settled) = kernel.settle_timer(timer.id, 51) {
        envelopes.push(signer.sign_event_at(TimerEvent::Settled(settled), 3, 51, None));
    } else {
        panic!("settle");
    }

    // one timer, one dedupe key per version, strictly increasing
    let keys: Vec<&str> = envelopes.iter().map(|e| e.dedupe_key.as_str()).collect();
    assert!(keys[0].ends_with(":0"));
    assert!(keys[1].ends_with(":2"));
    assert!(keys[2].ends_with(":3"));
    assert_eq!(keys.iter().collect::<std::collections::HashSet<_>>().len(), 3);
    for envelope in &envelopes {
        assert!(signer.verify(envelope));
    }
}

use horology_kernel::command::{command_name, InMemoryCommandLog, InMemoryTimerStore, TimerCommand};
use horology_kernel::status::parse_status_filter;
use horology_kernel::timer::KernelError;
use horology_kernel::status::TimerStatus;
use horology_kernel::strutil::{fmt_i64, fmt_u64, str_eq};

#[test]
fn status_names_round_trip() {
    let all = [
        TimerStatus::Scheduled,
        TimerStatus::Armed,
        TimerStatus::Fired,
        TimerStatus::Cancelled,
        TimerStatus::Failed,
        TimerStatus::Settled,
    ];
    for status in all {
        let name = status.as_str();
        assert_eq!(TimerStatus::from_str(name), Some(status));
    }
    assert_eq!(TimerStatus::from_str("exploded"), None);
    assert_eq!(TimerStatus::Scheduled.as_str(), "scheduled");
    assert_eq!(TimerStatus::Settled.as_str(), "settled");
}

#[test]
fn terminal_statuses_are_exactly_three() {
    assert!(!TimerStatus::Scheduled.is_terminal());
    assert!(!TimerStatus::Armed.is_terminal());
    assert!(!TimerStatus::Fired.is_terminal());
    assert!(TimerStatus::Cancelled.is_terminal());
    assert!(TimerStatus::Failed.is_terminal());
    assert!(TimerStatus::Settled.is_terminal());
}

#[test]
fn decimal_rendering_matches_std() {
    for n in [0u64, 1, 9, 10, 99, 12345, u64::MAX] {
        assert_eq!(fmt_u64(n), n.to_string());
    }
    for n in [0i64, -1, 42, -12345, i64::MIN, i64::MAX] {
        assert_eq!(fmt_i64(n), n.to_string());
    }
}

#[test]
fn string_equality_matches_std() {
    assert!(str_eq("", ""));
    assert!(str_eq("grüße", "grüße"));
    assert!(!str_eq("a", "ab"));
    assert!(!str_eq("grüße", "grusse"));
}

#[test]
fn command_log_appends_in_order() {
    let mut log = InMemoryCommandLog::new();
    let fire = TimerCommand::Fire {
        timer_id: 9,
        tenant_id: "tenant-local".to_string(),
        at: 1_000,
    };
    let first = log.append(&fire, 1_000);
    assert_eq!(first.sequence, 1);
    assert_eq!(first.created_at, 1_000);
    assert_eq!(command_name(&first.command), "fire");
    assert_eq!(first.command.timer_id(), 9);
    assert_eq!(first.command.tenant_id(), "tenant-local");

    let cancel = TimerCommand::Cancel {
        timer_id: 9,
        tenant_id: "tenant-local".to_string(),
        cancelled_by: Some("test-suite".to_string()),
        reason: None,
        at: 1_200,
    };
    let second = log.append(&cancel, 1_200);
    assert_eq!(second.sequence, 2);

    let entries = log.load_all();
    assert_eq!(entries.len(), 2);
    assert_eq!(entries[0].sequence, 1);
    assert_eq!(entries[1].sequence, 2);
    assert_eq!(command_name(&entries[1].command), "cancel");
}

#[test]
fn ephemeral_store_restores_nothing() {
    let store = InMemoryTimerStore::new();
    assert!(store.load_active().is_empty());
}

#[test]
fn error_messages_are_stable() {
    assert_eq!(
        KernelError::InvalidDuration.message(),
        "duration must be greater than zero"
    );
    assert_eq!(
        KernelError::InvalidFireTime.message(),
        "fire_at must be in the future"
    );
    assert_eq!(
        KernelError::NotLeader.message(),
        "horology kernel is not the leader"
    );
    assert_eq!(
        KernelError::DuplicateTimer.message(),
        "timer id already exists"
    );
}

#[test]
fn status_filters_parse_case_insensitively() {
    assert_eq!(parse_status_filter("scheduled"), Some(TimerStatus::Scheduled));
    assert_eq!(
        parse_status_filter("TIMER_STATUS_SCHEDULED"),
        Some(TimerStatus::Scheduled)
    );
    assert_eq!(parse_status_filter("Armed"), Some(TimerStatus::Armed));
    assert_eq!(parse_status_filter("fired"), Some(TimerStatus::Fired));
    assert_eq!(parse_status_filter("cancelled"), Some(TimerStatus::Cancelled));
    assert_eq!(parse_status_filter("canceled"), Some(TimerStatus::Cancelled));
    assert_eq!(parse_status_filter("settled"), Some(TimerStatus::Settled));
    assert_eq!(parse_status_filter("failed"), Some(TimerStatus::Failed));
    assert_eq!(parse_status_filter("unknown"), None);
    assert_eq!(parse_status_filter(""), None);
}

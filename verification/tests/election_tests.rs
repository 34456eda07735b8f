use horology_kernel::election::{
    decide_election, election_result_value, heartbeat_outcome_value, heartbeat_verdict,
    interval_literal, jittered_interval_ms, leadership_after, leadership_state_value,
    normalize_peer_address, str_starts_with, ElectionAction, ElectionResult, HeartbeatOutcome,
    LeaderHandle, LeaderRow, LeadershipState,
};

fn row(leader: &str, term: i64, heartbeat_at: i64) -> Option<LeaderRow> {
    Some(LeaderRow {
        leader_id: leader.to_string(),
        term,
        heartbeat_at,
    })
}

#[test]
fn empty_row_initialises_self() {
    let action = decide_election("node-a", &None, 1_000, 200);
    assert!(matches!(action, ElectionAction::InsertSelf));

    let (leads, result) = leadership_after(&action, true);
    assert!(leads);
    assert!(matches!(result, ElectionResult::Initialized));

    // losing the insert race leaves the node a follower
    let (leads, result) = leadership_after(&action, false);
    assert!(!leads);
    assert!(matches!(result, ElectionResult::PeerHealthy));
}

#[test]
fn fresh_own_heartbeat_retains_leadership() {
    let action = decide_election("node-a", &row("node-a", 3, 900), 1_000, 200);
    assert!(matches!(action, ElectionAction::Retain));
    let (leads, result) = leadership_after(&action, true);
    assert!(leads);
    assert!(matches!(result, ElectionResult::Retained));
}

#[test]
fn stale_own_heartbeat_refreshes_at_next_term() {
    let action = decide_election("node-a", &row("node-a", 3, 100), 1_000, 200);
    match action {
        ElectionAction::Refresh { term } => assert_eq!(term, 4),
        _ => panic!("own stale heartbeat must refresh"),
    }
}

#[test]
fn fresh_peer_steps_down_and_stale_peer_is_taken_over() {
    let fresh = decide_election("node-b", &row("node-a", 3, 900), 1_000, 200);
    assert!(matches!(fresh, ElectionAction::StepDown));
    let (leads, result) = leadership_after(&fresh, true);
    assert!(!leads);
    assert!(matches!(result, ElectionResult::PeerHealthy));

    let stale = decide_election("node-b", &row("node-a", 3, 100), 1_000, 200);
    match stale {
        ElectionAction::TakeOver { term } => assert_eq!(term, 4),
        _ => panic!("stale peer must be taken over"),
    }
    let (leads, result) = leadership_after(&stale, true);
    assert!(leads);
    assert!(matches!(result, ElectionResult::Won));
    let (leads, result) = leadership_after(&stale, false);
    assert!(!leads);
    assert!(matches!(result, ElectionResult::Contended));
}

#[test]
fn two_nodes_never_both_claim_the_same_row() {
    // a fresh leader row: the named node retains, everyone else follows
    let shared = row("node-a", 3, 900);
    let a = decide_election("node-a", &shared, 1_000, 200);
    let b = decide_election("node-b", &shared, 1_000, 200);
    let (a_leads, _) = leadership_after(&a, false);
    let (b_leads, _) = leadership_after(&b, true);
    assert!(a_leads && !b_leads);

    // a stale leader: two followers race for the takeover, and the
    // conditional update applies exactly one of the writes
    let stale = row("node-a", 3, 100);
    let b = decide_election("node-b", &stale, 1_000, 200);
    let c = decide_election("node-c", &stale, 1_000, 200);
    let (b_leads, _) = leadership_after(&b, true);
    let (c_leads, _) = leadership_after(&c, false);
    assert!(b_leads && !c_leads);
}

#[test]
fn heartbeat_failure_steps_down() {
    assert!(heartbeat_verdict(true, true));
    assert!(!heartbeat_verdict(true, false));
    assert!(!heartbeat_verdict(false, true));
}

#[test]
fn leader_handle_tracks_verdicts() {
    let mut handle = LeaderHandle::new();
    assert!(!handle.is_leader());
    handle.set_leader(true);
    assert!(handle.is_leader());
    handle.set_leader(false);
    assert!(!handle.is_leader());
}

#[test]
fn jittered_interval_stays_in_range() {
    for entropy in [0u64, 1, 599, 600, 7777, u64::MAX] {
        let delay = jittered_interval_ms(1_000, entropy);
        assert!((600..1200).contains(&delay), "delay {delay}");
    }
    // short bases never drop under a tenth of a second
    assert_eq!(jittered_interval_ms(0, 42), 100);
}

#[test]
fn interval_literal_never_names_zero() {
    assert_eq!(interval_literal(0), "1 milliseconds");
    assert_eq!(interval_literal(250), "250 milliseconds");
}

#[test]
fn peer_addresses_get_a_scheme() {
    assert_eq!(normalize_peer_address("10.0.0.7:8080"), "http://10.0.0.7:8080");
    assert_eq!(normalize_peer_address("http://peer:1"), "http://peer:1");
    assert_eq!(normalize_peer_address("https://peer:1"), "https://peer:1");
    assert!(str_starts_with("https://x", "https://"));
    assert!(!str_starts_with("ht", "http://"));
}

#[test]
fn telemetry_labels_are_stable() {
    assert_eq!(election_result_value(ElectionResult::Retained), "retained");
    assert_eq!(
        election_result_value(ElectionResult::HeartbeatRefresh),
        "heartbeat_refresh"
    );
    assert_eq!(election_result_value(ElectionResult::PeerHealthy), "peer_healthy");
    assert_eq!(election_result_value(ElectionResult::Won), "won");
    assert_eq!(election_result_value(ElectionResult::Contended), "contended");
    assert_eq!(election_result_value(ElectionResult::Initialized), "initialized");
    assert_eq!(election_result_value(ElectionResult::Error), "error");
    assert_eq!(leadership_state_value(LeadershipState::Leader), "leader");
    assert_eq!(leadership_state_value(LeadershipState::Follower), "follower");
    assert_eq!(heartbeat_outcome_value(HeartbeatOutcome::Sent), "ok");
    assert_eq!(heartbeat_outcome_value(HeartbeatOutcome::Failed), "error");
}

#[test]
fn jittered_interval_accepts_machine_entropy() {
    let entropy = horology_kernel::outside::random_u64();
    let delay = jittered_interval_ms(1_000, entropy);
    assert!((600..1200).contains(&delay));
}

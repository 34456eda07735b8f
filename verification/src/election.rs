//! Single-leader election over one shared durable row: the decision each
//! node takes from its observation of the row, what each decision does to
//! the row, and the guarantee that the row never names two leaders.
//!
//! The loops around these decisions — reading the row, running the SQL
//! update, sleeping the jittered interval — live with the caller; every
//! choice they act on is made here.

use vstd::prelude::*;
use vstd::string::StrSliceExecFns;
use vstd::string::StringExecFns;

use crate::strutil::{dec_of, str_eq};
use crate::TimestampMs;

verus! {

/// Leadership as observed through a handle: a plain two-state flag, kept
/// authoritative by exactly one writer, the replication supervisor.
pub struct LeaderHandle {
    is_leader: bool,
}

impl LeaderHandle {
    /// Whether this node currently leads.
    pub closed spec fn spec_is_leader(self) -> bool {
        self.is_leader
    }

    /// A fresh handle starts as follower.
    pub fn new() -> (r: Self)
        ensures
            !r.spec_is_leader(),
    {
        LeaderHandle { is_leader: false }
    }

    /// Whether this node currently leads.
    pub fn is_leader(&self) -> (r: bool)
        ensures
            r == self.spec_is_leader(),
    {
        self.is_leader
    }

    /// Records the supervisor's verdict.
    pub fn set_leader(&mut self, value: bool)
        ensures
            final(self).spec_is_leader() == value,
    {
        self.is_leader = value;
    }
}

/// The one durable leader row: who leads, at which term, and when that
/// leader last proved itself alive.
#[derive(Debug)]
pub struct LeaderRow {
    pub leader_id: String,
    pub term: i64,
    pub heartbeat_at: TimestampMs,
}

/// The mathematical shape of the leader row.
pub struct LeaderRowModel {
    pub leader_id: Seq<char>,
    pub term: int,
    pub heartbeat_at: int,
}

impl View for LeaderRow {
    type V = LeaderRowModel;

    open spec fn view(&self) -> LeaderRowModel {
        LeaderRowModel {
            leader_id: self.leader_id@,
            term: self.term as int,
            heartbeat_at: self.heartbeat_at as int,
        }
    }
}

/// The model of an observed row, if one exists.
pub open spec fn opt_row_view(row: Option<LeaderRow>) -> Option<LeaderRowModel> {
    match row {
        Some(r) => Some(r@),
        None => None,
    }
}

/// What one election round does after observing the row.
#[derive(Debug)]
pub enum ElectionAction {
    /// The local node leads and its heartbeat is fresh: keep leading.
    Retain,
    /// The local node leads but its own heartbeat went stale: refresh the
    /// row unconditionally at the next term.
    Refresh { term: i64 },
    /// Another node leads and its heartbeat is fresh: follow.
    StepDown,
    /// The named leader's heartbeat is stale: try to take the row over at
    /// the next term; the conditional update loses any race.
    TakeOver { term: i64 },
    /// No row exists yet: insert the local node at term one; the insert
    /// does nothing if another node got there first.
    InsertSelf,
}

/// The outcome of one election round, as recorded by telemetry.
#[derive(Debug)]
pub enum ElectionResult {
    Retained,
    HeartbeatRefresh,
    PeerHealthy,
    Won,
    Contended,
    Initialized,
    Error,
}

/// A leadership transition, as recorded by telemetry.
#[derive(Debug)]
pub enum LeadershipState {
    Leader,
    Follower,
}

/// The outcome of publishing one heartbeat, as recorded by telemetry.
#[derive(Debug)]
pub enum HeartbeatOutcome {
    Sent,
    Failed,
}

/// The decision of one election round.
pub open spec fn spec_decide(
    node: Seq<char>,
    row: Option<LeaderRowModel>,
    now: int,
    timeout: int,
) -> ElectionAction {
    match row {
        None => ElectionAction::InsertSelf,
        Some(r) => {
            if r.leader_id == node {
                if now - r.heartbeat_at > timeout {
                    ElectionAction::Refresh { term: (r.term + 1) as i64 }
                } else {
                    ElectionAction::Retain
                }
            } else if now - r.heartbeat_at < timeout {
                ElectionAction::StepDown
            } else {
                ElectionAction::TakeOver { term: (r.term + 1) as i64 }
            }
        },
    }
}

/// Decides one election round from the observed row: retain or refresh own
/// leadership, follow a fresh peer, take over a stale one, or initialise an
/// empty row.
pub fn decide_election(
    node_id: &str,
    row: &Option<LeaderRow>,
    now: TimestampMs,
    election_timeout_ms: i64,
) -> (r: ElectionAction)
    requires
        (match row {
            Some(rw) => rw@.term < i64::MAX && i64::MIN <= now - rw@.heartbeat_at <= i64::MAX,
            None => true,
        }),
    ensures
        r == spec_decide(node_id@, opt_row_view(*row), now as int, election_timeout_ms as int),
{
    match row {
        None => ElectionAction::InsertSelf,
        Some(rw) => {
            if str_eq(rw.leader_id.as_str(), node_id) {
                if now - rw.heartbeat_at > election_timeout_ms {
                    ElectionAction::Refresh { term: rw.term + 1 }
                } else {
                    ElectionAction::Retain
                }
            } else if now - rw.heartbeat_at < election_timeout_ms {
                ElectionAction::StepDown
            } else {
                ElectionAction::TakeOver { term: rw.term + 1 }
            }
        },
    }
}

/// The row after a node's decided action ran against the store; `applied`
/// says whether the conditional write went through. `Retain` and
/// `StepDown` write nothing.
pub open spec fn spec_apply(
    row: Option<LeaderRowModel>,
    node: Seq<char>,
    action: ElectionAction,
    now: int,
    applied: bool,
) -> Option<LeaderRowModel> {
    match action {
        ElectionAction::Retain => row,
        ElectionAction::StepDown => row,
        ElectionAction::Refresh { term } => Some(
            LeaderRowModel { leader_id: node, term: term as int, heartbeat_at: now },
        ),
        ElectionAction::TakeOver { term } => if applied {
            Some(LeaderRowModel { leader_id: node, term: term as int, heartbeat_at: now })
        } else {
            row
        },
        ElectionAction::InsertSelf => if applied {
            Some(LeaderRowModel { leader_id: node, term: 1, heartbeat_at: now })
        } else {
            row
        },
    }
}

/// The local leadership verdict and the telemetry record of one round.
pub fn leadership_after(action: &ElectionAction, applied: bool) -> (r: (bool, ElectionResult))
    ensures
        r.0 == spec_leader_after(*action, applied),
        match *action {
            ElectionAction::Retain => r.1 is Retained,
            ElectionAction::Refresh { .. } => r.1 is HeartbeatRefresh,
            ElectionAction::StepDown => r.1 is PeerHealthy,
            ElectionAction::TakeOver { .. } => if applied {
                r.1 is Won
            } else {
                r.1 is Contended
            },
            ElectionAction::InsertSelf => if applied {
                r.1 is Initialized
            } else {
                r.1 is PeerHealthy
            },
        },
{
    match action {
        ElectionAction::Retain => (true, ElectionResult::Retained),
        ElectionAction::Refresh { .. } => (true, ElectionResult::HeartbeatRefresh),
        ElectionAction::StepDown => (false, ElectionResult::PeerHealthy),
        ElectionAction::TakeOver { .. } => if applied {
            (true, ElectionResult::Won)
        } else {
            (false, ElectionResult::Contended)
        },
        ElectionAction::InsertSelf => if applied {
            (true, ElectionResult::Initialized)
        } else {
            (false, ElectionResult::PeerHealthy)
        },
    }
}

/// Whether a node observes itself leader after its round.
pub open spec fn spec_leader_after(action: ElectionAction, applied: bool) -> bool {
    match action {
        ElectionAction::Retain => true,
        ElectionAction::Refresh { .. } => true,
        ElectionAction::StepDown => false,
        ElectionAction::TakeOver { .. } => applied,
        ElectionAction::InsertSelf => applied,
    }
}

/// Whether the row names a node as leader.
pub open spec fn row_names(row: Option<LeaderRowModel>, node: Seq<char>) -> bool {
    match row {
        Some(r) => r.leader_id == node,
        None => false,
    }
}

/// The row never names two leaders: leadership claims grounded in the same
/// row state exclude each other for distinct nodes. Together with
/// `lemma_leadership_grounded` this is the only-one-leader guarantee,
/// modulo the failover window in which a node still acts on an older
/// observation.
pub proof fn lemma_row_names_one_leader(
    row: Option<LeaderRowModel>,
    a: Seq<char>,
    b: Seq<char>,
)
    requires
        a != b,
    ensures
        !(row_names(row, a) && row_names(row, b)),
{
}

/// A node concludes leadership from its round only when the row, as its own
/// statement left it, names that node: `Retain` and `Refresh` start from a
/// row naming the node, and a takeover or insert that was applied wrote the
/// node's name.
pub proof fn lemma_leadership_grounded(
    node: Seq<char>,
    row: Option<LeaderRowModel>,
    now: int,
    timeout: int,
    applied: bool,
)
    ensures
        spec_leader_after(spec_decide(node, row, now, timeout), applied) ==> row_names(
            spec_apply(row, node, spec_decide(node, row, now, timeout), now, applied),
            node,
        ),
{
}

/// The leadership flag a heartbeat round leaves: a node stays leader only
/// while it was leader and its heartbeat went through; a publish failure
/// steps down immediately.
pub fn heartbeat_verdict(was_leader: bool, publish_ok: bool) -> (r: bool)
    ensures
        r == (was_leader && publish_ok),
{
    was_leader && publish_ok
}

/// The election-loop delay: the timeout scaled by a factor drawn uniformly
/// from sixty to a hundred and twenty percent, and never below a tenth of
/// a second.
pub fn jittered_interval_ms(base_ms: u64, entropy: u64) -> (r: u64)
    ensures
        r == spec_jittered(base_ms, entropy),
        r >= 100,
{
    let factor: u128 = 600 + ((entropy % 600) as u128);
    proof {
        assert((base_ms as u128) * factor <= 0xffff_ffff_ffff_ffff * 1200) by (nonlinear_arith)
            requires
                factor <= 1200,
                base_ms <= 0xffff_ffff_ffff_ffff,
        ;
    }
    let scaled: u128 = (base_ms as u128) * factor / 1000;
    let bounded: u64 = if scaled > 0xffff_ffff_ffff_ffff {
        u64::MAX
    } else {
        scaled as u64
    };
    if bounded < 100 {
        100
    } else {
        bounded
    }
}

/// The jittered delay: `base * (600 + entropy % 600) / 1000`, clamped to
/// the machine word and raised to at least a hundred milliseconds.
pub open spec fn spec_jittered(base_ms: u64, entropy: u64) -> int {
    let scaled = base_ms * (600 + entropy % 600) / 1000;
    let bounded = if scaled > u64::MAX {
        u64::MAX as int
    } else {
        scaled
    };
    if bounded < 100 {
        100
    } else {
        bounded
    }
}

/// The SQL interval literal for a millisecond count, never zero.
pub fn interval_literal(ms: u64) -> (r: String)
    ensures
        r@ == dec_of(if ms == 0 {
            1nat
        } else {
            ms as nat
        }) + " milliseconds"@,
{
    let safe: u64 = if ms == 0 {
        1
    } else {
        ms
    };
    let mut out = crate::strutil::fmt_u64(safe);
    out.append(" milliseconds");
    out
}

/// Whether `s` starts with `prefix`.
pub open spec fn spec_starts_with(s: Seq<char>, prefix: Seq<char>) -> bool {
    s.len() >= prefix.len() && s.take(prefix.len() as int) == prefix
}

/// Whether a string starts with a prefix, character by character.
#[verifier::loop_isolation(false)]
pub fn str_starts_with(s: &str, prefix: &str) -> (r: bool)
    ensures
        r == spec_starts_with(s@, prefix@),
{
    let n = s.unicode_len();
    let m = prefix.unicode_len();
    if n < m {
        return false;
    }
    let mut i: usize = 0;
    while i < m
        invariant
            0 <= i <= m,
            forall|j: int| 0 <= j < i ==> s@[j] == prefix@[j],
        decreases m - i,
    {
        if s.get_char(i) != prefix.get_char(i) {
            assert(s@.take(prefix@.len() as int)[i as int] != prefix@[i as int]);
            return false;
        }
        i += 1;
    }
    proof {
        assert(s@.take(prefix@.len() as int) =~= prefix@);
    }
    true
}

/// A peer address with its scheme: addresses already carrying `http://` or
/// `https://` stand as they are, anything else is reached over `http://`.
pub fn normalize_peer_address(addr: &str) -> (r: String)
    ensures
        (spec_starts_with(addr@, "http://"@) || spec_starts_with(addr@, "https://"@)) ==> r@
            == addr@,
        !(spec_starts_with(addr@, "http://"@) || spec_starts_with(addr@, "https://"@)) ==> r@
            == "http://"@ + addr@,
{
    if str_starts_with(addr, "http://") || str_starts_with(addr, "https://") {
        String::from_str(addr)
    } else {
        let mut out = String::from_str("http://");
        out.append(addr);
        out
    }
}

/// The telemetry label of an election outcome.
pub fn election_result_value(result: ElectionResult) -> (r: &'static str)
    ensures
        match result {
            ElectionResult::Retained => r@ == "retained"@,
            ElectionResult::HeartbeatRefresh => r@ == "heartbeat_refresh"@,
            ElectionResult::PeerHealthy => r@ == "peer_healthy"@,
            ElectionResult::Won => r@ == "won"@,
            ElectionResult::Contended => r@ == "contended"@,
            ElectionResult::Initialized => r@ == "initialized"@,
            ElectionResult::Error => r@ == "error"@,
        },
{
    match result {
        ElectionResult::Retained => "retained",
        ElectionResult::HeartbeatRefresh => "heartbeat_refresh",
        ElectionResult::PeerHealthy => "peer_healthy",
        ElectionResult::Won => "won",
        ElectionResult::Contended => "contended",
        ElectionResult::Initialized => "initialized",
        ElectionResult::Error => "error",
    }
}

/// The telemetry label of a leadership state.
pub fn leadership_state_value(state: LeadershipState) -> (r: &'static str)
    ensures
        match state {
            LeadershipState::Leader => r@ == "leader"@,
            LeadershipState::Follower => r@ == "follower"@,
        },
{
    match state {
        LeadershipState::Leader => "leader",
        LeadershipState::Follower => "follower",
    }
}

/// The telemetry label of a heartbeat outcome.
pub fn heartbeat_outcome_value(outcome: HeartbeatOutcome) -> (r: &'static str)
    ensures
        match outcome {
            HeartbeatOutcome::Sent => r@ == "ok"@,
            HeartbeatOutcome::Failed => r@ == "error"@,
        },
{
    match outcome {
        HeartbeatOutcome::Sent => "ok",
        HeartbeatOutcome::Failed => "error",
    }
}

} // verus!

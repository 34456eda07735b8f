//! Timer lifecycle statuses and the transition relation between them.

use vstd::prelude::*;
use vstd::string::StrSliceExecFns;

verus! {

/// The lifecycle status of a timer instance.
///
/// Transitions form a DAG: `Scheduled -> Armed -> Fired -> Settled`;
/// `Scheduled`/`Armed` may move to `Cancelled`; any non-terminal status may
/// move to `Failed`. `Cancelled`, `Failed` and `Settled` are terminal.
#[derive(Clone, Copy, Debug, PartialEq, Eq, Structural)]
pub enum TimerStatus {
    Scheduled,
    Armed,
    Fired,
    Cancelled,
    Failed,
    Settled,
}

impl TimerStatus {
    /// Whether this status is terminal: no transition ever leaves it.
    pub open spec fn spec_is_terminal(&self) -> bool {
        self is Cancelled || self is Failed || self is Settled
    }

    #[verifier::when_used_as_spec(spec_is_terminal)]
    pub fn is_terminal(&self) -> (r: bool)
        ensures
            r == self.spec_is_terminal(),
    {
        matches!(*self, TimerStatus::Cancelled | TimerStatus::Failed | TimerStatus::Settled)
    }

    /// The status-transition DAG.
    pub open spec fn can_transition(self, to: TimerStatus) -> bool {
        ||| (self is Scheduled && to is Armed)
        ||| (self is Armed && to is Fired)
        ||| (self is Fired && to is Settled)
        ||| ((self is Scheduled || self is Armed) && to is Cancelled)
        ||| (!self.spec_is_terminal() && to is Failed)
    }

    /// The lower-case wire name of this status.
    pub fn as_str(&self) -> (r: &'static str)
        ensures
            r@ == self.spec_name(),
    {
        let r = match self {
            TimerStatus::Scheduled => "scheduled",
            TimerStatus::Armed => "armed",
            TimerStatus::Fired => "fired",
            TimerStatus::Cancelled => "cancelled",
            TimerStatus::Failed => "failed",
            TimerStatus::Settled => "settled",
        };
        proof {
            reveal_strlit("scheduled");
            reveal_strlit("armed");
            reveal_strlit("fired");
            reveal_strlit("cancelled");
            reveal_strlit("failed");
            reveal_strlit("settled");
        }
        r
    }

    /// The character sequence `as_str` returns for each status.
    pub open spec fn spec_name(self) -> Seq<char> {
        match self {
            TimerStatus::Scheduled => "scheduled"@,
            TimerStatus::Armed => "armed"@,
            TimerStatus::Fired => "fired"@,
            TimerStatus::Cancelled => "cancelled"@,
            TimerStatus::Failed => "failed"@,
            TimerStatus::Settled => "settled"@,
        }
    }

    /// Parses the wire name back into a status: the exact inverse of `as_str`.
    pub fn from_str(value: &str) -> (r: Option<TimerStatus>)
        ensures
            r matches Some(s) ==> s.spec_name() == value@,
            r is None ==> forall|s: TimerStatus| s.spec_name() != value@,
    {
        proof {
            reveal_strlit("scheduled");
            reveal_strlit("armed");
            reveal_strlit("fired");
            reveal_strlit("cancelled");
            reveal_strlit("failed");
            reveal_strlit("settled");
        }
        if crate::strutil::str_eq(value, "scheduled") {
            Some(TimerStatus::Scheduled)
        } else if crate::strutil::str_eq(value, "armed") {
            Some(TimerStatus::Armed)
        } else if crate::strutil::str_eq(value, "fired") {
            Some(TimerStatus::Fired)
        } else if crate::strutil::str_eq(value, "cancelled") {
            Some(TimerStatus::Cancelled)
        } else if crate::strutil::str_eq(value, "failed") {
            Some(TimerStatus::Failed)
        } else if crate::strutil::str_eq(value, "settled") {
            Some(TimerStatus::Settled)
        } else {
            proof {
                assert forall|s: TimerStatus| s.spec_name() != value@ by {
                    match s {
                        TimerStatus::Scheduled => {},
                        TimerStatus::Armed => {},
                        TimerStatus::Fired => {},
                        TimerStatus::Cancelled => {},
                        TimerStatus::Failed => {},
                        TimerStatus::Settled => {},
                    }
                }
            }
            None
        }
    }
}

/// Terminal statuses admit no outgoing transition, no status transitions
/// to itself, and nothing ever returns to `Scheduled`.
pub proof fn lemma_terminal_is_final(from: TimerStatus, to: TimerStatus)
    ensures
        from.spec_is_terminal() ==> !from.can_transition(to),
        from.can_transition(to) ==> to != from,
        from.can_transition(to) ==> !(to is Scheduled),
{
}

/// The code point of a character with an upper-case ASCII letter folded to
/// its lower-case form.
pub open spec fn folded_cp(c: char) -> int {
    if 'A' <= c && c <= 'Z' {
        c as u32 + 32
    } else {
        c as u32 as int
    }
}

/// Whether two strings agree up to ASCII case.
pub open spec fn eq_ignore_ascii_case(a: Seq<char>, b: Seq<char>) -> bool {
    a.len() == b.len() && forall|i: int| 0 <= i < a.len() ==> folded_cp(a[i]) == folded_cp(#[trigger] b[i])
}

/// Compares two strings up to ASCII case.
#[verifier::loop_isolation(false)]
pub fn str_eq_ignore_ascii_case(a: &str, b: &str) -> (r: bool)
    ensures
        r == eq_ignore_ascii_case(a@, b@),
{
    let n = a.unicode_len();
    let m = b.unicode_len();
    if n != m {
        return false;
    }
    let mut i: usize = 0;
    while i < n
        invariant
            0 <= i <= n,
            forall|j: int| 0 <= j < i ==> folded_cp(a@[j]) == folded_cp(#[trigger] b@[j]),
        decreases n - i,
    {
        let ca = a.get_char(i) as u32;
        let cb = b.get_char(i) as u32;
        let fa = if 65 <= ca && ca <= 90 {
            ca + 32
        } else {
            ca
        };
        let fb = if 65 <= cb && cb <= 90 {
            cb + 32
        } else {
            cb
        };
        if fa != fb {
            return false;
        }
        i += 1;
    }
    true
}

/// Parses a status filter of the wire, case-insensitively: each status is
/// named either plainly or with its enumeration prefix, and the American
/// spelling of a cancellation is accepted too. Anything else filters
/// nothing.
pub fn parse_status_filter(raw: &str) -> (r: Option<TimerStatus>)
    ensures
        match r {
            Some(s) => exists|alias: Seq<char>|
                #[trigger] eq_ignore_ascii_case(raw@, alias) && status_aliases(s).contains(alias),
            None => forall|s: TimerStatus, alias: Seq<char>|
                #[trigger] status_aliases(s).contains(alias) ==> !eq_ignore_ascii_case(
                    raw@,
                    alias,
                ),
        },
{
    if str_eq_ignore_ascii_case(raw, "scheduled") || str_eq_ignore_ascii_case(
        raw,
        "timer_status_scheduled",
    ) {
        proof {
            assert(status_aliases(TimerStatus::Scheduled).contains("scheduled"@));
            assert(status_aliases(TimerStatus::Scheduled).contains("timer_status_scheduled"@));
        }
        Some(TimerStatus::Scheduled)
    } else if str_eq_ignore_ascii_case(raw, "armed") || str_eq_ignore_ascii_case(
        raw,
        "timer_status_armed",
    ) {
        proof {
            assert(status_aliases(TimerStatus::Armed).contains("armed"@));
            assert(status_aliases(TimerStatus::Armed).contains("timer_status_armed"@));
        }
        Some(TimerStatus::Armed)
    } else if str_eq_ignore_ascii_case(raw, "fired") || str_eq_ignore_ascii_case(
        raw,
        "timer_status_fired",
    ) {
        proof {
            assert(status_aliases(TimerStatus::Fired).contains("fired"@));
            assert(status_aliases(TimerStatus::Fired).contains("timer_status_fired"@));
        }
        Some(TimerStatus::Fired)
    } else if str_eq_ignore_ascii_case(raw, "cancelled") || str_eq_ignore_ascii_case(
        raw,
        "canceled",
    ) || str_eq_ignore_ascii_case(raw, "timer_status_cancelled") {
        proof {
            assert(status_aliases(TimerStatus::Cancelled).contains("cancelled"@));
            assert(status_aliases(TimerStatus::Cancelled).contains("canceled"@));
            assert(status_aliases(TimerStatus::Cancelled).contains("timer_status_cancelled"@));
        }
        Some(TimerStatus::Cancelled)
    } else if str_eq_ignore_ascii_case(raw, "failed") || str_eq_ignore_ascii_case(
        raw,
        "timer_status_failed",
    ) {
        proof {
            assert(status_aliases(TimerStatus::Failed).contains("failed"@));
            assert(status_aliases(TimerStatus::Failed).contains("timer_status_failed"@));
        }
        Some(TimerStatus::Failed)
    } else if str_eq_ignore_ascii_case(raw, "settled") || str_eq_ignore_ascii_case(
        raw,
        "timer_status_settled",
    ) {
        proof {
            assert(status_aliases(TimerStatus::Settled).contains("settled"@));
            assert(status_aliases(TimerStatus::Settled).contains("timer_status_settled"@));
        }
        Some(TimerStatus::Settled)
    } else {
        proof {
            assert forall|s: TimerStatus, alias: Seq<char>|
                #[trigger] status_aliases(s).contains(alias) implies !eq_ignore_ascii_case(
                raw@,
                alias,
            ) by {
                match s {
                    TimerStatus::Scheduled => {},
                    TimerStatus::Armed => {},
                    TimerStatus::Fired => {},
                    TimerStatus::Cancelled => {},
                    TimerStatus::Failed => {},
                    TimerStatus::Settled => {},
                }
            }
        }
        None
    }
}

/// The wire names accepted for each status.
pub open spec fn status_aliases(s: TimerStatus) -> Set<Seq<char>> {
    match s {
        TimerStatus::Scheduled => set!["scheduled"@, "timer_status_scheduled"@],
        TimerStatus::Armed => set!["armed"@, "timer_status_armed"@],
        TimerStatus::Fired => set!["fired"@, "timer_status_fired"@],
        TimerStatus::Cancelled => set![
            "cancelled"@,
            "canceled"@,
            "timer_status_cancelled"@,
        ],
        TimerStatus::Failed => set!["failed"@, "timer_status_failed"@],
        TimerStatus::Settled => set!["settled"@, "timer_status_settled"@],
    }
}

} // verus!

//! Fire-time jitter tracking: a bounded window of observed deltas between
//! scheduled and actual fire instants, an averaged compensation hint, and
//! the compensated fire-time computation.

use vstd::prelude::*;

use crate::timer::MIN_COMPENSATED_LEAD_MS;
use crate::TimestampMs;

verus! {

/// The number of samples kept when no window size is chosen.
pub const DEFAULT_WINDOW: usize = 64;

/// The compensation hint is clamped to this magnitude, in milliseconds.
pub const MAX_COMPENSATION_MS: i64 = 500;

/// One observed fire-time error.
#[derive(Debug)]
pub struct JitterSample {
    pub timer_id: u128,
    pub tenant_id: String,
    /// Actual minus scheduled fire instant, in milliseconds.
    pub delta_ms: i64,
    pub recorded_at: TimestampMs,
}

/// A bounded window of observed fire-time deltas and their running sum.
pub struct JitterMonitor {
    samples: Vec<i64>,
    sum: i128,
    window: usize,
}

/// The sum of a sequence of deltas.
pub open spec fn seq_sum(s: Seq<i64>) -> int
    decreases s.len(),
{
    if s.len() == 0 {
        0
    } else {
        s[0] + seq_sum(s.drop_first())
    }
}

/// The sum of a window is bounded by its length times the largest delta.
pub proof fn lemma_seq_sum_bound(s: Seq<i64>)
    ensures
        -(s.len() as int) * (i64::MAX as int + 1) <= seq_sum(s) <= (s.len() as int) * (
        i64::MAX as int),
    decreases s.len(),
{
    if s.len() > 0 {
        lemma_seq_sum_bound(s.drop_first());
        assert((s.len() as int) * (i64::MAX as int) == (i64::MAX as int) + (s.len() - 1) * (
        i64::MAX as int)) by (nonlinear_arith);
        assert((s.len() as int) * (i64::MAX as int + 1) == (i64::MAX as int + 1) + (s.len() - 1) * (
        i64::MAX as int + 1)) by (nonlinear_arith);
    }
}

/// Appending a delta adds it to the sum.
pub proof fn lemma_seq_sum_push(s: Seq<i64>, x: i64)
    ensures
        seq_sum(s.push(x)) == seq_sum(s) + x,
    decreases s.len(),
{
    if s.len() == 0 {
        assert(s.push(x)[0] == x);
        assert(s.push(x).drop_first() =~= Seq::<i64>::empty());
        assert(seq_sum(s.push(x)) == x + seq_sum(Seq::<i64>::empty()));
    } else {
        lemma_seq_sum_push(s.drop_first(), x);
        assert(s.push(x).drop_first() =~= s.drop_first().push(x));
        assert(seq_sum(s.push(x)) == s.push(x)[0] + seq_sum(s.push(x).drop_first()));
        assert(s.push(x)[0] == s[0]);
        assert(seq_sum(s.push(x).drop_first()) == seq_sum(s.drop_first().push(x)));
        assert(seq_sum(s.drop_first().push(x)) == seq_sum(s.drop_first()) + x);
        assert(seq_sum(s) == s[0] + seq_sum(s.drop_first()));
    }
}

/// Division rounded half away from zero; the divisor must be positive.
pub open spec fn round_div(a: int, b: int) -> int
    recommends
        b > 0,
{
    if a >= 0 {
        (2 * a + b) / (2 * b)
    } else {
        -((2 * (-a) + b) / (2 * b))
    }
}

/// A value clamped to the compensation bound.
pub open spec fn clamp_compensation(v: int) -> int {
    if v < -(MAX_COMPENSATION_MS as int) {
        -(MAX_COMPENSATION_MS as int)
    } else if v > MAX_COMPENSATION_MS as int {
        MAX_COMPENSATION_MS as int
    } else {
        v
    }
}

impl JitterMonitor {
    /// The deltas currently in the window, oldest first.
    pub closed spec fn spec_samples(self) -> Seq<i64> {
        self.samples@
    }

    /// The window bound.
    pub closed spec fn spec_window(self) -> int {
        self.window as int
    }

    /// The running sum matches the samples and the window bound holds.
    pub closed spec fn wf(self) -> bool {
        &&& self.sum as int == seq_sum(self.samples@)
        &&& 1 <= self.window <= 0x1000_0000
        &&& self.samples@.len() <= self.window
    }

    /// The current compensation hint: the rounded mean of the window,
    /// clamped to the compensation bound; zero when the window is empty.
    pub open spec fn spec_hint(self) -> int {
        if self.spec_samples().len() == 0 {
            0
        } else {
            clamp_compensation(round_div(seq_sum(self.spec_samples()), self.spec_samples().len() as int))
        }
    }

    /// A monitor keeping at most `window` samples; a zero window is raised
    /// to one, and an astronomically large one is capped.
    pub fn new(window: usize) -> (r: Self)
        ensures
            r.wf(),
            r.spec_samples() =~= Seq::<i64>::empty(),
            r.spec_window() == if window < 1 {
                1int
            } else if window > 0x1000_0000 {
                0x1000_0000int
            } else {
                window as int
            },
    {
        let w = if window < 1 {
            1
        } else if window > 0x1000_0000 {
            0x1000_0000
        } else {
            window
        };
        JitterMonitor { samples: Vec::new(), sum: 0, window: w }
    }

    /// A monitor with the default window.
    pub fn with_default_window() -> (r: Self)
        ensures
            r.wf(),
            r.spec_samples() =~= Seq::<i64>::empty(),
            r.spec_window() == DEFAULT_WINDOW as int,
    {
        Self::new(DEFAULT_WINDOW)
    }

    /// Records the delta between the scheduled and the actual fire instant;
    /// when the window overflows, the oldest delta leaves it.
    pub fn record(
        &mut self,
        scheduled: TimestampMs,
        actual: TimestampMs,
        timer_id: u128,
        tenant_id: &str,
        now: TimestampMs,
    ) -> (r: JitterSample)
        requires
            old(self).wf(),
            i64::MIN <= actual - scheduled <= i64::MAX,
        ensures
            final(self).wf(),
            r.delta_ms == actual - scheduled,
            r.timer_id == timer_id,
            r.tenant_id@ == tenant_id@,
            r.recorded_at == now,
            final(self).spec_window() == old(self).spec_window(),
            final(self).spec_samples() == if old(self).spec_samples().len() + 1 > old(
                self,
            ).spec_window() {
                old(self).spec_samples().push(r.delta_ms).drop_first()
            } else {
                old(self).spec_samples().push(r.delta_ms)
            },
    {
        let delta: i64 = actual - scheduled;
        self.samples.push(delta);
        proof {
            lemma_seq_sum_bound(old(self).spec_samples());
            lemma_seq_sum_push(old(self).spec_samples(), delta);
        }
        self.sum = self.sum + (delta as i128);
        if self.samples.len() > self.window {
            let expired = self.samples.remove(0);
            proof {
                assert(old(self).spec_samples().push(delta).drop_first() =~= self.samples@);
                assert(seq_sum(old(self).spec_samples().push(delta)) == old(
                    self,
                ).spec_samples().push(delta)[0] + seq_sum(
                    old(self).spec_samples().push(delta).drop_first(),
                ));
            }
            self.sum = self.sum - (expired as i128);
        }
        JitterSample {
            timer_id,
            tenant_id: tenant_id.to_owned(),
            delta_ms: delta,
            recorded_at: now,
        }
    }

    /// The averaged compensation hint, clamped to the compensation bound.
    pub fn compensation_hint_ms(&self) -> (r: i64)
        requires
            self.wf(),
        ensures
            r == self.spec_hint(),
            -MAX_COMPENSATION_MS <= r <= MAX_COMPENSATION_MS,
    {
        let len = self.samples.len();
        if len == 0 {
            return 0;
        }
        proof {
            lemma_seq_sum_bound(self.spec_samples());
        }
        let sum: i128 = self.sum;
        let n: i128 = len as i128;
        let avg: i128 = if sum >= 0 {
            (2 * sum + n) / (2 * n)
        } else {
            -((2 * (-sum) + n) / (2 * n))
        };
        let clamped: i128 = if avg < -(MAX_COMPENSATION_MS as i128) {
            -(MAX_COMPENSATION_MS as i128)
        } else if avg > MAX_COMPENSATION_MS as i128 {
            MAX_COMPENSATION_MS as i128
        } else {
            avg
        };
        clamped as i64
    }

    /// The fire instant to use for the next timer: the target shifted
    /// earlier by the hint, but never closer to `now` than the minimum
    /// lead. A zero hint leaves the target untouched, and a nonzero hint
    /// never yields an instant at or before `now`.
    pub fn adjust_fire_at(&self, now: TimestampMs, target: TimestampMs) -> (r: TimestampMs)
        requires
            self.wf(),
            0 <= now,
            0 <= target,
            now <= i64::MAX - MIN_COMPENSATED_LEAD_MS,
            target <= i64::MAX - MAX_COMPENSATION_MS,
        ensures
            r == crate::kernel::adjusted_fire_at(now as int, target as int, self.spec_hint()),
            self.spec_hint() != 0 ==> r >= now + MIN_COMPENSATED_LEAD_MS,
    {
        let hint = self.compensation_hint_ms();
        if hint == 0 {
            return target;
        }
        let candidate = target - hint;
        let minimum = now + MIN_COMPENSATED_LEAD_MS;
        if candidate < minimum {
            minimum
        } else {
            candidate
        }
    }
}

} // verus!

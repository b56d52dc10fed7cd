//! The cycle timer: real elapsed time in, completed in-game hours out.
use vstd::prelude::*;

use crate::calendar::CalendarError;

verus! {

/// Nanoseconds in one second.
pub const NANOS_PER_SEC: u64 = 1_000_000_000;

/// The longest hour length, in seconds, whose cycle still counts in `u64` nanoseconds.
pub const MAX_HOUR_LENGTH: u64 = 18_446_744_073;

/// Whether a cycle of `duration` nanoseconds completes when `delta` is added
/// to `elapsed`.
pub open spec fn tick_finishes(elapsed: int, duration: int, delta: int) -> bool {
    elapsed + delta >= duration
}

/// What is carried into the next cycle: whole cycles are dropped, the rest kept.
pub open spec fn tick_elapsed(elapsed: int, duration: int, delta: int) -> int {
    (elapsed + delta) % duration
}

/// Elapsed time rescaled to a new cycle length, keeping the fraction of the
/// cycle that has passed (rounded down to whole nanoseconds).
pub open spec fn rescaled_elapsed(elapsed: int, duration: int, new_duration: int) -> int {
    elapsed * new_duration / duration
}

/// Whether an hour length, in seconds, is accepted.
pub open spec fn valid_hour_length(hour_length: int) -> bool {
    0 < hour_length <= MAX_HOUR_LENGTH
}

/// How many ticks complete a cycle, for a run of ticks from `elapsed`.
pub open spec fn completions(elapsed: int, duration: int, deltas: Seq<u64>) -> int
    decreases deltas.len(),
{
    if deltas.len() == 0 {
        0
    } else {
        let done: int = if tick_finishes(elapsed, duration, deltas[0] as int) { 1 } else { 0 };
        done + completions(tick_elapsed(elapsed, duration, deltas[0] as int), duration, deltas.drop_first())
    }
}

/// The sum of a run of ticks.
pub open spec fn total(deltas: Seq<u64>) -> int
    decreases deltas.len(),
{
    if deltas.len() == 0 {
        0
    } else {
        deltas[0] + total(deltas.drop_first())
    }
}

/// A repeating timer whose cycle is one in-game hour.
pub struct CalendarTimer {
    duration: u64,
    elapsed: u64,
}

impl CalendarTimer {
    /// Length of the cycle in nanoseconds.
    pub closed spec fn duration_nanos(&self) -> int {
        self.duration as int
    }

    /// Time accumulated in the current cycle, in nanoseconds.
    pub closed spec fn elapsed_nanos(&self) -> int {
        self.elapsed as int
    }

    pub open spec fn wf(&self) -> bool {
        &&& 0 < self.duration_nanos() <= u64::MAX
        &&& 0 <= self.elapsed_nanos() < self.duration_nanos()
    }

    /// A timer with a cycle of `hour_length` seconds and nothing elapsed.
    pub fn new(hour_length: u64) -> (r: Result<CalendarTimer, CalendarError>)
        ensures
            valid_hour_length(hour_length as int) ==> r is Ok && r->Ok_0.wf()
                && r->Ok_0.duration_nanos() == hour_length * NANOS_PER_SEC
                && r->Ok_0.elapsed_nanos() == 0,
            !valid_hour_length(hour_length as int) ==> r == Err::<CalendarTimer, CalendarError>(CalendarError::InvalidDuration),
    {
        if hour_length == 0 || hour_length > MAX_HOUR_LENGTH {
            return Err(CalendarError::InvalidDuration);
        }
        Ok(CalendarTimer { duration: hour_length * NANOS_PER_SEC, elapsed: 0 })
    }

    /// Length of the cycle in nanoseconds.
    pub fn duration(&self) -> (r: u64)
        ensures
            r == self.duration_nanos(),
    {
        self.duration
    }

    /// Time accumulated in the current cycle, in nanoseconds.
    pub fn elapsed(&self) -> (r: u64)
        ensures
            r == self.elapsed_nanos(),
    {
        self.elapsed
    }

    /// Adds `delta` nanoseconds; returns whether the cycle completed. Several
    /// cycles passed in one call count as one completion.
    pub fn tick(&mut self, delta: u64) -> (finished: bool)
        requires
            old(self).wf(),
        ensures
            final(self).wf(),
            finished == tick_finishes(old(self).elapsed_nanos(), old(self).duration_nanos(), delta as int),
            final(self).elapsed_nanos() == tick_elapsed(old(self).elapsed_nanos(), old(self).duration_nanos(), delta as int),
            final(self).duration_nanos() == old(self).duration_nanos(),
    {
        let sum: u128 = self.elapsed as u128 + delta as u128;
        let d: u128 = self.duration as u128;
        let finished = sum >= d;
        let rest: u128 = sum % d;
        self.elapsed = rest as u64;
        finished
    }

    /// Sets the cycle to `hour_length` seconds, rescaling the elapsed time so
    /// that the fraction of the cycle that has passed is kept.
    pub fn set_hour_length(&mut self, hour_length: u64) -> (r: Result<(), CalendarError>)
        requires
            old(self).wf(),
        ensures
            final(self).wf(),
            valid_hour_length(hour_length as int) ==> r is Ok
                && final(self).duration_nanos() == hour_length * NANOS_PER_SEC
                && final(self).elapsed_nanos() == rescaled_elapsed(
                    old(self).elapsed_nanos(),
                    old(self).duration_nanos(),
                    hour_length * NANOS_PER_SEC,
                ),
            !valid_hour_length(hour_length as int) ==> r == Err::<(), CalendarError>(CalendarError::InvalidDuration)
                && *final(self) == *old(self),
    {
        if hour_length == 0 || hour_length > MAX_HOUR_LENGTH {
            return Err(CalendarError::InvalidDuration);
        }
        let new_duration: u64 = hour_length * NANOS_PER_SEC;
        let e = self.elapsed as u128;
        let d = self.duration as u128;
        let n = new_duration as u128;
        proof {
            lemma_rescale_bounds(e as int, d as int, n as int);
        }
        let product: u128 = e * n;
        let scaled: u128 = product / d;
        self.elapsed = scaled as u64;
        self.duration = new_duration;
        Ok(())
    }
}

proof fn lemma_rescale_bounds(e: int, d: int, n: int)
    requires
        0 <= e < d,
        0 < n,
        d <= u64::MAX,
        n <= u64::MAX,
    ensures
        0 <= e * n <= u128::MAX,
        0 <= e * n / d < n,
{
    assert(0 <= e * n) by (nonlinear_arith)
        requires 0 <= e, 0 < n;
    assert(e * n <= u64::MAX * u64::MAX) by (nonlinear_arith)
        requires 0 <= e <= u64::MAX, 0 < n <= u64::MAX;
    assert(e * n < d * n) by (nonlinear_arith)
        requires 0 <= e < d, 0 < n;
    assert(e * n / d < n) by (nonlinear_arith)
        requires 0 <= e * n < d * n, 0 < d;
    assert(0 <= e * n / d) by (nonlinear_arith)
        requires 0 <= e * n, 0 < d;
}

proof fn lemma_total_nonneg(deltas: Seq<u64>)
    ensures
        total(deltas) >= 0,
    decreases deltas.len(),
{
    if deltas.len() > 0 {
        lemma_total_nonneg(deltas.drop_first());
    }
}

proof fn lemma_no_completion(elapsed: int, duration: int, deltas: Seq<u64>)
    requires
        0 <= elapsed,
        elapsed + total(deltas) < duration,
    ensures
        completions(elapsed, duration, deltas) == 0,
    decreases deltas.len(),
{
    if deltas.len() > 0 {
        let next = elapsed + deltas[0];
        lemma_total_nonneg(deltas.drop_first());
        vstd::arithmetic::div_mod::lemma_small_mod(next as nat, duration as nat);
        lemma_no_completion(next, duration, deltas.drop_first());
    }
}

proof fn lemma_completes_once(elapsed: int, duration: int, deltas: Seq<u64>)
    requires
        0 <= elapsed < duration,
        elapsed + total(deltas) == duration,
    ensures
        completions(elapsed, duration, deltas) == 1,
    decreases deltas.len(),
{
    let next = elapsed + deltas[0];
    lemma_total_nonneg(deltas.drop_first());
    if next >= duration {
        vstd::arithmetic::div_mod::lemma_mod_self_0(duration);
        lemma_no_completion(0, duration, deltas.drop_first());
    } else {
        vstd::arithmetic::div_mod::lemma_small_mod(next as nat, duration as nat);
        lemma_completes_once(next, duration, deltas.drop_first());
    }
}

/// Ticks that start a cycle and add up to exactly one cycle complete it
/// exactly once, however the time is split among them.
pub proof fn lemma_one_cycle_completes_once(duration: int, deltas: Seq<u64>)
    requires
        0 < duration,
        total(deltas) == duration,
    ensures
        completions(0, duration, deltas) == 1,
{
    lemma_completes_once(0, duration, deltas);
}

/// Rescaling keeps the fraction of the cycle that has passed: the new elapsed
/// time is the largest whole number `r` with `r / new_duration <= elapsed / duration`,
/// and it stays inside the new cycle.
pub proof fn lemma_rescale_keeps_progress(elapsed: int, duration: int, new_duration: int)
    requires
        0 <= elapsed < duration,
        0 < new_duration,
    ensures
        rescaled_elapsed(elapsed, duration, new_duration) * duration <= elapsed * new_duration,
        elapsed * new_duration < (rescaled_elapsed(elapsed, duration, new_duration) + 1) * duration,
        0 <= rescaled_elapsed(elapsed, duration, new_duration) < new_duration,
{
    let p = elapsed * new_duration;
    let r = rescaled_elapsed(elapsed, duration, new_duration);
    vstd::arithmetic::div_mod::lemma_fundamental_div_mod(p, duration);
    vstd::arithmetic::div_mod::lemma_mod_pos_bound(p, duration);
    assert(0 <= p) by (nonlinear_arith)
        requires 0 <= elapsed, 0 < new_duration, p == elapsed * new_duration;
    assert(p < duration * new_duration) by (nonlinear_arith)
        requires 0 <= elapsed < duration, 0 < new_duration, p == elapsed * new_duration;
    assert(r * duration == duration * r) by (nonlinear_arith);
    assert((r + 1) * duration == duration * r + duration) by (nonlinear_arith);
    assert(0 <= r < new_duration) by (nonlinear_arith)
        requires 0 <= p < duration * new_duration, 0 < duration, r == p / duration;
}

} // verus!

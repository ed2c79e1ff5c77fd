use vstd::prelude::*;
use crate::time::{Duration, Instant, NANOS_PER_SEC};
use crate::timer::{Poll, Timeout, Timer};
use crate::worker::{TaskId, Worker};

verus! {

/// Error of an interval: the next deadline lies beyond the clock's range.
#[derive(Clone, Copy, Debug, PartialEq, Eq, Structural)]
pub enum TimerError {
    TooLong,
}

/// A stream of notifications, each separated from the previous one by a
/// duration drawn from `[min_duration, max_duration]`. It holds exactly one
/// timeout at a time.
#[derive(Debug)]
pub struct Interval {
    pub sleep: Timeout,
    pub min_duration: Duration,
    pub max_duration: Duration,
}

/// The whole seconds that a draw over `[min, max]` may take, both ends
/// included: none to choose when both bounds share them.
pub open spec fn secs_range(min: Duration, max: Duration) -> Option<(u64, u64)> {
    if min.secs == max.secs {
        None
    } else {
        Some((min.secs, max.secs))
    }
}

/// The sub-second parts that a draw over `[min, max]` may take once its
/// whole seconds are `secs`, both ends included: none to choose when both
/// bounds share them. The part is at least `min`'s in `min`'s second and
/// at most `max`'s in `max`'s second.
pub open spec fn subsec_range(min: Duration, max: Duration, secs: u64) -> Option<(u64, u64)> {
    if min.nanos == max.nanos {
        None
    } else if secs == min.secs && secs == max.secs {
        Some((min.nanos as u64, max.nanos as u64))
    } else if secs == min.secs {
        Some((min.nanos as u64, (NANOS_PER_SEC - 1) as u64))
    } else if secs == max.secs {
        Some((0u64, max.nanos as u64))
    } else {
        Some((0u64, (NANOS_PER_SEC - 1) as u64))
    }
}

/// Whether `v` lies in `range`, or equals `fixed` where there is nothing
/// to choose.
pub open spec fn in_draw_range(range: Option<(u64, u64)>, fixed: u64, v: u64) -> bool {
    match range {
        None => v == fixed,
        Some((lo, hi)) => lo <= v <= hi,
    }
}

/// The draws that `next_duration` may make for the range `[min, max]`:
/// the whole seconds first, then the sub-second part given those seconds.
pub open spec fn is_jitter_sample(min: Duration, max: Duration, d: Duration) -> bool {
    &&& in_draw_range(secs_range(min, max), min.secs, d.secs)
    &&& in_draw_range(subsec_range(min, max, d.secs), min.nanos as u64, d.nanos as u64)
}

/// A range that `next_duration` accepts: well-formed bounds, `min <= max`.
pub open spec fn valid_range(min: Duration, max: Duration) -> bool {
    &&& min.wf()
    &&& max.wf()
    &&& min.total() <= max.total()
}

/// Every draw lies within its range and is well formed; a degenerate range
/// always gives its bound.
pub proof fn lemma_jitter_in_range(min: Duration, max: Duration, d: Duration)
    requires
        valid_range(min, max),
        is_jitter_sample(min, max, d),
    ensures
        d.wf(),
        min.secs <= d.secs <= max.secs,
        min.total() <= d.total() <= max.total(),
        min == max ==> d == min,
{
    let n = NANOS_PER_SEC as int;
    if min.secs > max.secs {
        assert(min.secs * n >= max.secs * n + n) by (nonlinear_arith)
            requires min.secs > max.secs, n > 0;
    }
    if d.secs > min.secs {
        assert(d.secs * n >= min.secs * n + n) by (nonlinear_arith)
            requires d.secs > min.secs, n > 0;
    }
    if d.secs < max.secs {
        assert(d.secs * n + n <= max.secs * n) by (nonlinear_arith)
            requires d.secs < max.secs, n > 0;
    }
}

/// Relies on rand's `thread_rng` and `Rng::gen_range(low, high)`: a value in
/// `[low, high)`; `gen_range` panics when `low >= high`.
#[verifier::external_body]
fn random_below(low: u64, high: u64) -> (r: u64)
    requires
        low < high,
    ensures
        low <= r < high,
{
    rand::Rng::gen_range(&mut rand::thread_rng(), low, high)
}

/// Relies on rand's `thread_rng` and `Rng::gen::<u64>`: any `u64`, drawn
/// uniformly.
#[verifier::external_body]
fn random_any() -> (r: u64) {
    rand::Rng::gen::<u64>(&mut rand::thread_rng())
}

/// A uniform draw from `[lo, hi]`, both ends included.
fn random_between(lo: u64, hi: u64) -> (r: u64)
    requires
        lo <= hi,
    ensures
        lo <= r <= hi,
{
    if hi < u64::MAX {
        random_below(lo, hi + 1)
    } else if lo > 0 {
        random_below(lo - 1, hi) + 1
    } else {
        random_any()
    }
}

/// The whole seconds that a draw over `[min, max]` may take.
pub fn secs_bounds(min: Duration, max: Duration) -> (r: Option<(u64, u64)>)
    ensures
        r == secs_range(min, max),
{
    if min.as_secs() == max.as_secs() {
        None
    } else {
        Some((min.as_secs(), max.as_secs()))
    }
}

/// The sub-second parts that a draw over `[min, max]` may take once its
/// whole seconds are `secs`.
pub fn subsec_bounds(min: Duration, max: Duration, secs: u64) -> (r: Option<(u64, u64)>)
    ensures
        r == subsec_range(min, max, secs),
{
    if min.subsec_nanos() == max.subsec_nanos() {
        None
    } else if secs == min.as_secs() && secs == max.as_secs() {
        Some((min.subsec_nanos() as u64, max.subsec_nanos() as u64))
    } else if secs == min.as_secs() {
        Some((min.subsec_nanos() as u64, (NANOS_PER_SEC - 1) as u64))
    } else if secs == max.as_secs() {
        Some((0, max.subsec_nanos() as u64))
    } else {
        Some((0, (NANOS_PER_SEC - 1) as u64))
    }
}

/// A random duration for the next period of an interval over `[min, max]`:
/// the whole seconds are drawn uniformly from `secs_bounds`, then the
/// sub-second part uniformly from `subsec_bounds` for those seconds.
pub fn next_duration(min: Duration, max: Duration) -> (r: Duration)
    requires
        valid_range(min, max),
    ensures
        is_jitter_sample(min, max, r),
        r.wf(),
        min.total() <= r.total() <= max.total(),
        min == max ==> r == min,
{
    let secs: u64 = match secs_bounds(min, max) {
        None => min.as_secs(),
        Some((lo, hi)) => {
            proof {
                if min.secs > max.secs {
                    let n = NANOS_PER_SEC as int;
                    assert(min.secs * n >= max.secs * n + n) by (nonlinear_arith)
                        requires min.secs > max.secs, n > 0;
                }
            }
            random_between(lo, hi)
        },
    };
    let nanos: u32 = match subsec_bounds(min, max, secs) {
        None => min.subsec_nanos(),
        Some((lo, hi)) => {
            proof {
                if secs == min.secs && secs == max.secs {
                    assert(min.nanos <= max.nanos);
                }
            }
            random_between(lo, hi) as u32
        },
    };
    let r = Duration::new(secs, nanos);
    proof {
        lemma_jitter_in_range(min, max, r);
    }
    r
}

/// An interval that first fires with `sleep` and then every period drawn
/// from `[min_dur, max_dur]`.
pub fn new(sleep: Timeout, min_dur: Duration, max_dur: Duration) -> (r: Interval)
    ensures
        r.sleep == sleep,
        r.min_duration == min_dur,
        r.max_duration == max_dur,
{
    Interval { sleep, min_duration: min_dur, max_duration: max_dur }
}

impl Interval {
    /// Restarting `self` at `now` with period `d` against worker `w` leaves
    /// the interval as `i2` and the worker as `w2`; `ok` tells whether the
    /// next deadline fits the clock. On success the old timeout is disposed
    /// of and a fresh, unregistered one targets `now + d`.
    pub open spec fn reset_step(
        self,
        now: Instant,
        d: Duration,
        w: Worker,
        i2: Interval,
        w2: Worker,
        ok: bool,
    ) -> bool {
        if now.nanos + d.total() <= u64::MAX {
            &&& ok
            &&& i2 == Interval {
                sleep: Timeout { when: Instant { nanos: (now.nanos + d.total()) as u64 }, handle: None },
                ..self
            }
            &&& self.sleep.cancel_step(w, w2)
        } else {
            !ok && i2 == self && w2 == w
        }
    }

    /// One poll of `self` at `now` by task `cur` against worker `w` gives
    /// `r` and leaves the interval as `i2` and the worker as `w2`. Before the
    /// deadline it is the held timeout's poll; at or after it a period `d`
    /// is drawn from the range and the interval restarts with it.
    pub open spec fn poll_step(
        self,
        now: Instant,
        cur: TaskId,
        w: Worker,
        i2: Interval,
        w2: Worker,
        r: Result<Poll, TimerError>,
    ) -> bool {
        &&& i2.min_duration == self.min_duration
        &&& i2.max_duration == self.max_duration
        &&& if now.nanos < self.sleep.when.nanos {
            exists|p: Poll| {
                &&& r == Ok::<Poll, TimerError>(p)
                &&& p != Poll::Ready
                &&& #[trigger] self.sleep.poll_step(now, cur, w, i2.sleep, w2, p)
            }
        } else {
            &&& exists|d: Duration| {
                &&& is_jitter_sample(self.min_duration, self.max_duration, d)
                &&& #[trigger] self.reset_step(now, d, w, i2, w2, r is Ok)
            }
            &&& r is Ok ==> r == Ok::<Poll, TimerError>(Poll::Ready)
            &&& r is Err ==> r == Err::<Poll, TimerError>(TimerError::TooLong)
        }
    }

    /// Replaces the held timeout by a fresh one that targets `now + d`,
    /// disposing of the old one.
    pub fn reset(&mut self, now: Instant, d: Duration, timer: &mut Timer) -> (r: Result<(), TimerError>)
        ensures
            old(self).reset_step(now, d, old(timer).worker, *final(self), final(timer).worker, r is Ok),
            r is Err ==> r == Err::<(), TimerError>(TimerError::TooLong),
    {
        match now.checked_add(d) {
            None => Err(TimerError::TooLong),
            Some(when) => {
                let mut done = timer.set_timeout(when);
                std::mem::swap(&mut self.sleep, &mut done);
                done.cancel(timer);
                Ok(())
            },
        }
    }

    /// Disposes of the interval and with it of its current timeout.
    pub fn cancel(self, timer: &mut Timer)
        ensures
            self.sleep.cancel_step(old(timer).worker, final(timer).worker),
    {
        self.sleep.cancel(timer);
    }

    /// Polls the interval at `now` from task `cur`.
    ///
    /// Until the held timeout fires this is that timeout's poll. When it
    /// fires, a period is drawn from the range, the timeout is replaced by
    /// one that ends a period after `now`, and one notification is
    /// emitted.
    pub fn poll(&mut self, now: Instant, cur: TaskId, timer: &mut Timer) -> (r: Result<Poll, TimerError>)
        requires
            valid_range(old(self).min_duration, old(self).max_duration),
        ensures
            old(self).poll_step(now, cur, old(timer).worker, *final(self), final(timer).worker, r),
            r == Ok::<Poll, TimerError>(Poll::Ready) ==> {
                let gap = final(self).sleep.when.nanos - now.nanos;
                let (lo, hi) = (old(self).min_duration, old(self).max_duration);
                &&& lo.total() <= gap <= hi.total()
                &&& lo == hi ==> gap == lo.total()
            },
    {
        let p = self.sleep.poll(now, cur, timer);
        match p {
            Poll::Ready => {
                let d = next_duration(self.min_duration, self.max_duration);
                let ghost before = *self;
                let ghost w0 = timer.worker;
                let done = self.reset(now, d, timer);
                let r = match done {
                    Ok(()) => Ok(Poll::Ready),
                    Err(e) => Err(e),
                };
                assert(is_jitter_sample(before.min_duration, before.max_duration, d)
                    && before.reset_step(now, d, w0, *self, timer.worker, r is Ok));
                proof {
                    lemma_jitter_in_range(before.min_duration, before.max_duration, d);
                }
                r
            },
            _ => Ok(p),
        }
    }
}

/// Two successive notifications of an interval: the first, at `t1`,
/// restarts it with a deadline between `min` and `max` after `t1`, exactly
/// the period after `t1` when `min == max`; the second, at `t2`, comes no
/// sooner than that deadline, so at least `min` after `t1`; and a poll at or
/// after that deadline notifies again unless the clock's range is exceeded.
pub proof fn lemma_interval_spacing(
    i0: Interval,
    i1: Interval,
    i2: Interval,
    t1: Instant,
    t2: Instant,
    c1: TaskId,
    c2: TaskId,
    w0: Worker,
    w1: Worker,
    wa: Worker,
    wb: Worker,
    r2: Result<Poll, TimerError>,
)
    requires
        valid_range(i0.min_duration, i0.max_duration),
        i0.poll_step(t1, c1, w0, i1, w1, Ok::<Poll, TimerError>(Poll::Ready)),
        i1.poll_step(t2, c2, wa, i2, wb, r2),
    ensures
        ({
            let gap = i1.sleep.when.nanos - t1.nanos;
            let (lo, hi) = (i0.min_duration, i0.max_duration);
            &&& lo.total() <= gap <= hi.total()
            &&& lo == hi ==> gap == lo.total()
        }),
        r2 == Ok::<Poll, TimerError>(Poll::Ready) ==> t2.nanos - t1.nanos >= i0.min_duration.total(),
        t2.nanos >= i1.sleep.when.nanos ==> r2 == Ok::<Poll, TimerError>(Poll::Ready)
            || r2 == Err::<Poll, TimerError>(TimerError::TooLong),
        i2.min_duration == i0.min_duration,
        i2.max_duration == i0.max_duration,
{
    assert(t1.nanos >= i0.sleep.when.nanos);
    let d = choose|d: Duration| {
        &&& is_jitter_sample(i0.min_duration, i0.max_duration, d)
        &&& #[trigger] i0.reset_step(t1, d, w0, i1, w1, true)
    };
    lemma_jitter_in_range(i0.min_duration, i0.max_duration, d);
}

} // verus!

//! The emission gate: rate-limits and thresholds how often a smoothed point
//! is forwarded to the output device, and decides the adaptive poll delay.
//!
//! A point is forwarded only when it has moved perceptibly away from the last
//! forwarded point *and* the minimum emission interval has elapsed; both
//! gates must open. Only an actual emission updates the stored point and
//! timestamp. Timestamps are microseconds on a monotone clock.

use vstd::prelude::*;
use crate::point::Point;

verus! {

/// Default movement threshold, in output-space units: a point within this
/// distance of the last forwarded point is not worth forwarding.
pub const POSITION_THRESHOLD: i64 = 1;

/// Default minimum interval between two emissions, in microseconds
/// (a 1 kHz ceiling).
pub const MIN_EMISSION_INTERVAL_US: u64 = 1000;

/// Once this long has passed without an emission, the poll loop may back
/// off, in microseconds.
pub const IDLE_AFTER_US: u64 = 10000;

/// Poll delay while idle, in microseconds.
pub const IDLE_SLEEP_US: u64 = 500;

/// Poll delay while active, in microseconds.
pub const ACTIVE_SLEEP_US: u64 = 50;

/// Magnitude bound on the configured movement threshold; its square must
/// fit comfortably in 64 bits.
pub const GATE_THRESHOLD_LIMIT: i64 = 1000000;

/// The emission gate's persistent state: what was last forwarded and when.
/// Both fields are updated only when an emission actually occurs.
#[derive(Clone, Copy, PartialEq, Eq, Structural, Debug)]
pub struct EmissionState {
    /// The last point forwarded to the output device.
    pub last_emitted: Point,
    /// The time of the last emission, in microseconds.
    pub last_time_us: u64,
    /// Movement threshold: emit only strictly beyond this distance.
    pub position_threshold: i64,
    /// Minimum time between two emissions, in microseconds.
    pub min_interval_us: u64,
}

/// Whether the emission gate forwards `p` at time `now_us`: the point must have moved
/// strictly further than the movement threshold from the last forwarded
/// point, and at least the minimum interval must have elapsed.
pub open spec fn spec_should_emit(st: EmissionState, p: Point, now_us: u64) -> bool {
    &&& p.dist_sq(st.last_emitted) > st.position_threshold * st.position_threshold
    &&& now_us - st.last_time_us >= st.min_interval_us
}

/// The emission gate's state after offering it `p` at time `now_us`:
/// unchanged unless
/// the point is forwarded, in which case it records the point and the time.
pub open spec fn spec_gate_after(st: EmissionState, p: Point, now_us: u64) -> EmissionState {
    if spec_should_emit(st, p, now_us) {
        EmissionState { last_emitted: p, last_time_us: now_us, ..st }
    } else {
        st
    }
}

impl EmissionState {
    /// A valid state: a stored point inside the output space and a movement
    /// threshold small enough to square.
    pub open spec fn wf(self) -> bool {
        &&& self.last_emitted.in_output_space()
        &&& 0 <= self.position_threshold <= GATE_THRESHOLD_LIMIT
    }

    /// A fresh gate with the default thresholds, as if a point at the origin
    /// had just been forwarded at time `now_us`.
    pub fn new(now_us: u64) -> (r: EmissionState)
        ensures
            r == (EmissionState {
                last_emitted: Point { x: 0, y: 0 },
                last_time_us: now_us,
                position_threshold: POSITION_THRESHOLD,
                min_interval_us: MIN_EMISSION_INTERVAL_US,
            }),
            r.wf(),
    {
        EmissionState {
            last_emitted: Point { x: 0, y: 0 },
            last_time_us: now_us,
            position_threshold: POSITION_THRESHOLD,
            min_interval_us: MIN_EMISSION_INTERVAL_US,
        }
    }

    /// Offers the emission gate a smoothed point at time `now_us`; returns the point
    /// exactly when the emission gate forwards it.
    ///
    /// The clock is monotone, so `now_us` never precedes the recorded
    /// emission time.
    pub fn maybe_emit(&mut self, p: Point, now_us: u64) -> (r: Option<Point>)
        requires
            old(self).wf(),
            p.in_output_space(),
            now_us >= old(self).last_time_us,
        ensures
            *final(self) == spec_gate_after(*old(self), p, now_us),
            final(self).wf(),
            r == if spec_should_emit(*old(self), p, now_us) {
                Some(p)
            } else {
                None::<Point>
            },
    {
        let d = p.distance_sq(self.last_emitted);
        proof {
            lemma_gate_threshold_square_fits(self.position_threshold as int);
        }
        if d > self.position_threshold * self.position_threshold
            && now_us - self.last_time_us >= self.min_interval_us {
            self.last_emitted = p;
            self.last_time_us = now_us;
            Some(p)
        } else {
            None
        }
    }
}

/// The adaptive poll delay after a cycle: back off once no emission has
/// happened for longer than [`IDLE_AFTER_US`], stay responsive otherwise.
pub fn poll_delay_us(st: &EmissionState, now_us: u64) -> (r: u64)
    requires
        now_us >= st.last_time_us,
    ensures
        r == if now_us - st.last_time_us > IDLE_AFTER_US {
            IDLE_SLEEP_US
        } else {
            ACTIVE_SLEEP_US
        },
{
    if now_us - st.last_time_us > IDLE_AFTER_US {
        IDLE_SLEEP_US
    } else {
        ACTIVE_SLEEP_US
    }
}

/// Law: the emission gate never emits twice within the minimum emission interval,
/// however many poll cycles fall into that window.
///
/// After an emission at `t1`, any offer at a time less than one interval
/// later is refused and leaves the state unchanged, so repeated offers
/// inside the window are all refused.
pub proof fn lemma_no_double_emission(st: EmissionState, p1: Point, p2: Point, t1: u64, t2: u64)
    requires
        spec_should_emit(st, p1, t1),
        t2 >= t1,
        t2 - t1 < st.min_interval_us,
    ensures
        !spec_should_emit(spec_gate_after(st, p1, t1), p2, t2),
        spec_gate_after(spec_gate_after(st, p1, t1), p2, t2) == spec_gate_after(st, p1, t1),
{
}

/// Law: the emission gate never emits a point within the movement threshold of the
/// last forwarded one, even when the interval has elapsed, and refusing
/// leaves the state unchanged.
pub proof fn lemma_no_emission_below_threshold(st: EmissionState, p: Point, now_us: u64)
    requires
        p.dist_sq(st.last_emitted) <= st.position_threshold * st.position_threshold,
    ensures
        !spec_should_emit(st, p, now_us),
        spec_gate_after(st, p, now_us) == st,
{
}

/// The square of the configured movement threshold stays well inside
/// 64 bits.
proof fn lemma_gate_threshold_square_fits(t: int)
    requires
        0 <= t <= GATE_THRESHOLD_LIMIT,
    ensures
        0 <= t * t <= GATE_THRESHOLD_LIMIT * GATE_THRESHOLD_LIMIT,
{
    assert(0 <= t * t <= GATE_THRESHOLD_LIMIT * GATE_THRESHOLD_LIMIT) by (nonlinear_arith)
        requires 0 <= t <= GATE_THRESHOLD_LIMIT;
}

} // verus!

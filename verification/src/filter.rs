//! The stability filter: jump-confirmation outlier rejection combined with
//! exponential smoothing.
//!
//! The filter turns a noisy stream of output-space points into a stable
//! trajectory. A displacement larger than the detection threshold is not
//! applied immediately: it is held for one frame as a jump candidate, and
//! applied only if the next point lands near the candidate. A candidate that
//! is not confirmed is discarded and the confirmed position stays put, so a
//! single-frame spike never moves the cursor. Smoothing is always driven by
//! the confirmed position, never by the raw or candidate point, so a rejected
//! spike never leaks into the smoothed trajectory.
//!
//! The smoothing factor is the rational `alpha_num / alpha_den`; each step
//! blends the confirmed point into the running average with that weight,
//! rounding down.

use vstd::prelude::*;
use crate::point::Point;
use crate::point::OUTPUT_MAX;

verus! {

/// Default jump detection threshold, in output-space units: a displacement
/// strictly larger than this needs confirmation by the following frame.
pub const JUMP_DETECTION_THRESHOLD: i64 = 100;

/// Default jump confirmation distance, in output-space units: the next point
/// must land strictly closer than this to the candidate to confirm it.
pub const JUMP_CONFIRMATION_DISTANCE: i64 = 75;

/// Default smoothing factor numerator; with [`SMOOTHING_DEN`] this gives
/// an exponential-moving-average weight of one half.
pub const SMOOTHING_NUM: i64 = 1;

/// Default smoothing factor denominator.
pub const SMOOTHING_DEN: i64 = 2;

/// Magnitude bound on the configured thresholds; their squares must fit
/// comfortably in 64 bits.
pub const THRESHOLD_LIMIT: i64 = 1000000;

/// Bound on the smoothing denominator.
pub const SMOOTHING_LIMIT: i64 = 1000000;

/// The filter's tunable constants.
#[derive(Clone, Copy, PartialEq, Eq, Structural, Debug)]
pub struct FilterConfig {
    /// Displacements strictly above this distance become jump candidates.
    pub detect_threshold: i64,
    /// A candidate is confirmed by a point strictly closer than this to it.
    pub confirm_distance: i64,
    /// Numerator of the smoothing factor.
    pub alpha_num: i64,
    /// Denominator of the smoothing factor.
    pub alpha_den: i64,
}

impl FilterConfig {
    /// A valid configuration: non-negative thresholds small enough to square,
    /// and a smoothing factor in `(0, 1]`.
    pub open spec fn wf(self) -> bool {
        &&& 0 <= self.detect_threshold <= THRESHOLD_LIMIT
        &&& 0 <= self.confirm_distance <= THRESHOLD_LIMIT
        &&& 0 < self.alpha_num <= self.alpha_den <= SMOOTHING_LIMIT
    }

    /// The default configuration.
    pub fn new() -> (r: FilterConfig)
        ensures
            r == (FilterConfig {
                detect_threshold: JUMP_DETECTION_THRESHOLD,
                confirm_distance: JUMP_CONFIRMATION_DISTANCE,
                alpha_num: SMOOTHING_NUM,
                alpha_den: SMOOTHING_DEN,
            }),
            r.wf(),
    {
        FilterConfig {
            detect_threshold: JUMP_DETECTION_THRESHOLD,
            confirm_distance: JUMP_CONFIRMATION_DISTANCE,
            alpha_num: SMOOTHING_NUM,
            alpha_den: SMOOTHING_DEN,
        }
    }
}

/// The filter's persistent state.
#[derive(Clone, Copy, PartialEq, Eq, Structural, Debug)]
pub struct FilterState {
    pub config: FilterConfig,
    /// The last position accepted as genuine.
    pub last_confirmed: Point,
    /// The running exponential moving average of the confirmed positions.
    pub smoothed: Point,
    /// A provisionally rejected large displacement, held for one frame
    /// pending confirmation; at most one is pending at a time.
    pub candidate: Option<Point>,
    /// Whether any point has been received yet.
    pub has_received: bool,
}

/// One smoothing step on a single axis: the new value blends `c` into `s`
/// with weight `num / den`, rounding down.
pub open spec fn spec_smooth_axis(s: int, c: int, num: int, den: int) -> int {
    (c * num + s * (den - num)) / den
}

/// The confirmed position after feeding `p` to the filter in state `pre`.
pub open spec fn spec_confirmed_after(pre: FilterState, p: Point) -> Point {
    if !pre.has_received {
        p
    } else if pre.candidate is Some {
        if p.dist_sq(pre.candidate->0) < pre.config.confirm_distance * pre.config.confirm_distance {
            pre.candidate->0
        } else {
            pre.last_confirmed
        }
    } else {
        if p.dist_sq(pre.last_confirmed) > pre.config.detect_threshold * pre.config.detect_threshold {
            pre.last_confirmed
        } else {
            p
        }
    }
}

/// The pending candidate after feeding `p` to the filter in state `pre`.
pub open spec fn spec_candidate_after(pre: FilterState, p: Point) -> Option<Point> {
    if !pre.has_received {
        None
    } else if pre.candidate is Some {
        None
    } else if p.dist_sq(pre.last_confirmed) > pre.config.detect_threshold * pre.config.detect_threshold {
        Some(p)
    } else {
        None
    }
}

/// The smoothed position after feeding `p` to the filter in state `pre`:
/// the first point seeds the average, every later point blends the new
/// confirmed position into it.
pub open spec fn spec_smoothed_after(pre: FilterState, p: Point) -> Point {
    let base = if !pre.has_received { p } else { pre.smoothed };
    let c = spec_confirmed_after(pre, p);
    Point {
        x: spec_smooth_axis(base.x as int, c.x as int, pre.config.alpha_num as int, pre.config.alpha_den as int) as i64,
        y: spec_smooth_axis(base.y as int, c.y as int, pre.config.alpha_num as int, pre.config.alpha_den as int) as i64,
    }
}

/// The whole filter transition.
pub open spec fn spec_filter_step(pre: FilterState, p: Point) -> FilterState {
    FilterState {
        config: pre.config,
        last_confirmed: spec_confirmed_after(pre, p),
        smoothed: spec_smoothed_after(pre, p),
        candidate: spec_candidate_after(pre, p),
        has_received: true,
    }
}

impl FilterState {
    /// A valid state: valid configuration, every stored point inside the
    /// output space.
    pub open spec fn wf(self) -> bool {
        &&& self.config.wf()
        &&& self.last_confirmed.in_output_space()
        &&& self.smoothed.in_output_space()
        &&& (self.candidate matches Some(c) ==> c.in_output_space())
    }

    /// A fresh filter with the given configuration, before any point has
    /// been received.
    pub fn new(config: FilterConfig) -> (r: FilterState)
        requires
            config.wf(),
        ensures
            r == (FilterState {
                config,
                last_confirmed: Point { x: 0, y: 0 },
                smoothed: Point { x: 0, y: 0 },
                candidate: None::<Point>,
                has_received: false,
            }),
            r.wf(),
    {
        FilterState {
            config,
            last_confirmed: Point { x: 0, y: 0 },
            smoothed: Point { x: 0, y: 0 },
            candidate: None,
            has_received: false,
        }
    }

    /// Feeds one output-space point through the filter and returns the new
    /// smoothed position.
    ///
    /// The new state is exactly [`spec_filter_step`] applied to the old one,
    /// and the result is the new smoothed position — returned on every call,
    /// whether or not the confirmed position moved.
    pub fn apply(&mut self, p: Point) -> (r: Point)
        requires
            old(self).wf(),
            p.in_output_space(),
        ensures
            *final(self) == spec_filter_step(*old(self), p),
            final(self).wf(),
            r == final(self).smoothed,
    {
        if !self.has_received {
            self.last_confirmed = p;
            self.smoothed = p;
            self.candidate = None;
            self.has_received = true;
        } else {
            match self.candidate {
                Some(candidate) => {
                    let d = p.distance_sq(candidate);
                    proof {
                        lemma_threshold_square_fits(self.config.confirm_distance as int);
                    }
                    if d < self.config.confirm_distance * self.config.confirm_distance {
                        self.last_confirmed = candidate;
                    }
                    self.candidate = None;
                }
                None => {
                    let d = p.distance_sq(self.last_confirmed);
                    proof {
                        lemma_threshold_square_fits(self.config.detect_threshold as int);
                    }
                    if d > self.config.detect_threshold * self.config.detect_threshold {
                        self.candidate = Some(p);
                    } else {
                        self.last_confirmed = p;
                    }
                }
            }
        }
        let sx = smooth_axis(
            self.smoothed.x,
            self.last_confirmed.x,
            self.config.alpha_num,
            self.config.alpha_den,
        );
        let sy = smooth_axis(
            self.smoothed.y,
            self.last_confirmed.y,
            self.config.alpha_num,
            self.config.alpha_den,
        );
        self.smoothed = Point { x: sx, y: sy };
        self.smoothed
    }
}

/// Law: a single-frame spike that is not followed by a confirming nearby
/// point never updates the confirmed position.
///
/// From a state with no pending candidate, a first point further than the
/// detection threshold from the confirmed position only becomes a candidate,
/// and when the second point does not land within the confirmation distance
/// of that candidate, the candidate is discarded: after both frames the
/// confirmed position is exactly what it was before, and no candidate is
/// left pending.
pub proof fn lemma_spike_rejected(pre: FilterState, p1: Point, p2: Point)
    requires
        pre.has_received,
        pre.candidate is None,
        p1.dist_sq(pre.last_confirmed) > pre.config.detect_threshold * pre.config.detect_threshold,
        p2.dist_sq(p1) >= pre.config.confirm_distance * pre.config.confirm_distance,
    ensures
        spec_filter_step(pre, p1).last_confirmed == pre.last_confirmed,
        spec_filter_step(spec_filter_step(pre, p1), p2).last_confirmed == pre.last_confirmed,
        spec_filter_step(spec_filter_step(pre, p1), p2).candidate is None,
{
}

/// Law: a genuine two-frame jump is accepted by the second frame.
///
/// From a state with no pending candidate, a first point further than the
/// detection threshold from the confirmed position does not move the cursor,
/// but when the second point lands within the confirmation distance of it,
/// the jump is confirmed: the confirmed position becomes the first point.
pub proof fn lemma_jump_confirmed(pre: FilterState, p1: Point, p2: Point)
    requires
        pre.has_received,
        pre.candidate is None,
        p1.dist_sq(pre.last_confirmed) > pre.config.detect_threshold * pre.config.detect_threshold,
        p2.dist_sq(p1) < pre.config.confirm_distance * pre.config.confirm_distance,
    ensures
        spec_filter_step(pre, p1).last_confirmed == pre.last_confirmed,
        spec_filter_step(pre, p1).candidate == Some(p1),
        spec_filter_step(spec_filter_step(pre, p1), p2).last_confirmed == p1,
{
}

/// Law: one smoothing step lands between the old value and the target, so a
/// constant target is approached monotonically and never overshot.
pub proof fn lemma_smoothing_monotone_axis(s: int, c: int, num: int, den: int)
    requires
        0 < num <= den,
    ensures
        s <= c ==> s <= spec_smooth_axis(s, c, num, den) <= c,
        c <= s ==> c <= spec_smooth_axis(s, c, num, den) <= s,
{
    let n = c * num + s * (den - num);
    vstd::arithmetic::div_mod::lemma_div_multiples_vanish(s, den);
    vstd::arithmetic::div_mod::lemma_div_multiples_vanish(c, den);
    assert(s * den == den * s && c * den == den * c) by (nonlinear_arith);
    if s <= c {
        assert(s * den <= c * num + s * (den - num) <= c * den) by (nonlinear_arith)
            requires 0 < num <= den, s <= c;
        vstd::arithmetic::div_mod::lemma_div_is_ordered(s * den, n, den);
        vstd::arithmetic::div_mod::lemma_div_is_ordered(n, c * den, den);
    } else {
        assert(c * den <= c * num + s * (den - num) <= s * den) by (nonlinear_arith)
            requires 0 < num <= den, c <= s;
        vstd::arithmetic::div_mod::lemma_div_is_ordered(c * den, n, den);
        vstd::arithmetic::div_mod::lemma_div_is_ordered(n, s * den, den);
    }
}

/// Law: a smoothing factor of one disables smoothing — the step lands on
/// the target exactly.
pub proof fn lemma_full_weight_disables_smoothing(s: int, c: int, den: int)
    requires
        0 < den,
    ensures
        spec_smooth_axis(s, c, den, den) == c,
{
    vstd::arithmetic::div_mod::lemma_div_multiples_vanish(c, den);
    assert(c * den == den * c) by (nonlinear_arith);
}

/// Law: with the default weight of one half, each smoothing step closes at
/// least half of the remaining gap to the target.
pub proof fn lemma_smoothing_halves_gap(s: int, c: int)
    requires
        s <= c,
    ensures
        c - spec_smooth_axis(s, c, SMOOTHING_NUM as int, SMOOTHING_DEN as int)
            == (c - s) - (c - s) / 2,
{
    vstd::arithmetic::div_mod::lemma_hoist_over_denominator(c - s, s, 2nat);
    assert((c - s) + s * 2 == c * SMOOTHING_NUM + s * (SMOOTHING_DEN - SMOOTHING_NUM));
}

/// Law: feeding a point the filter accepts immediately moves the smoothed
/// position monotonically toward it, on each axis, without overshooting.
pub proof fn lemma_smoothing_converges(pre: FilterState, p: Point)
    requires
        pre.wf(),
        pre.has_received,
        pre.candidate is None,
        p.dist_sq(pre.last_confirmed) <= pre.config.detect_threshold * pre.config.detect_threshold,
    ensures
        spec_filter_step(pre, p).last_confirmed == p,
        pre.smoothed.x <= p.x ==> pre.smoothed.x
            <= spec_filter_step(pre, p).smoothed.x <= p.x,
        p.x <= pre.smoothed.x ==> p.x
            <= spec_filter_step(pre, p).smoothed.x <= pre.smoothed.x,
        pre.smoothed.y <= p.y ==> pre.smoothed.y
            <= spec_filter_step(pre, p).smoothed.y <= p.y,
        p.y <= pre.smoothed.y ==> p.y
            <= spec_filter_step(pre, p).smoothed.y <= pre.smoothed.y,
{
    lemma_smoothing_monotone_axis(
        pre.smoothed.x as int,
        p.x as int,
        pre.config.alpha_num as int,
        pre.config.alpha_den as int,
    );
    lemma_smoothing_monotone_axis(
        pre.smoothed.y as int,
        p.y as int,
        pre.config.alpha_num as int,
        pre.config.alpha_den as int,
    );
}

/// The square of a configured threshold stays well inside 64 bits.
proof fn lemma_threshold_square_fits(t: int)
    requires
        0 <= t <= THRESHOLD_LIMIT,
    ensures
        0 <= t * t <= THRESHOLD_LIMIT * THRESHOLD_LIMIT,
{
    assert(0 <= t * t <= THRESHOLD_LIMIT * THRESHOLD_LIMIT) by (nonlinear_arith)
        requires 0 <= t <= THRESHOLD_LIMIT;
}

/// One exec smoothing step on a single axis.
fn smooth_axis(s: i64, c: i64, num: i64, den: i64) -> (r: i64)
    requires
        0 <= s <= OUTPUT_MAX,
        0 <= c <= OUTPUT_MAX,
        0 < num <= den <= SMOOTHING_LIMIT,
    ensures
        r == spec_smooth_axis(s as int, c as int, num as int, den as int),
        0 <= r <= OUTPUT_MAX,
{
    proof {
        lemma_smooth_axis_bounds(s as int, c as int, num as int, den as int);
    }
    (c * num + s * (den - num)) / den
}

/// A smoothing step stays inside the output space, and its intermediate
/// products stay well inside 64 bits.
proof fn lemma_smooth_axis_bounds(s: int, c: int, num: int, den: int)
    requires
        0 <= s <= OUTPUT_MAX,
        0 <= c <= OUTPUT_MAX,
        0 < num <= den <= SMOOTHING_LIMIT,
    ensures
        0 <= c * num <= OUTPUT_MAX * SMOOTHING_LIMIT,
        0 <= s * (den - num) <= OUTPUT_MAX * SMOOTHING_LIMIT,
        0 <= spec_smooth_axis(s, c, num, den) <= OUTPUT_MAX,
{
    assert(0 <= c * num <= OUTPUT_MAX * SMOOTHING_LIMIT) by (nonlinear_arith)
        requires 0 <= c <= OUTPUT_MAX, 0 < num <= SMOOTHING_LIMIT;
    assert(0 <= s * (den - num) <= OUTPUT_MAX * SMOOTHING_LIMIT) by (nonlinear_arith)
        requires 0 <= s <= OUTPUT_MAX, 0 <= den - num < SMOOTHING_LIMIT;
    assert(0 <= (c * num + s * (den - num)) / den <= OUTPUT_MAX) by (nonlinear_arith)
        requires
            0 <= s <= OUTPUT_MAX,
            0 <= c <= OUTPUT_MAX,
            0 < num <= den <= SMOOTHING_LIMIT,
    ;
}

} // verus!

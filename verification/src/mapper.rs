//! The coordinate mapper: a pure, stateless remap of a raw device coordinate
//! into the output space `[0, OUTPUT_MAX] x [0, OUTPUT_MAX]`.
//!
//! Each axis is handled independently: the raw value is clamped to the
//! configured source interval and then rescaled linearly, so the result always
//! lies inside the output space, whatever the raw input was.

use vstd::prelude::*;
use crate::point::Point;
use crate::point::OUTPUT_MAX;

verus! {

/// Magnitude bound on the configured source bounds; raw device coordinates
/// are 32-bit, so every meaningful configuration satisfies it.
pub const RECT_LIMIT: i64 = 0x8000_0000;

/// The configured source rectangle: the region of the input surface that is
/// mapped onto the whole output space.
#[derive(Clone, Copy, PartialEq, Eq, Structural, Debug)]
pub struct SourceRect {
    pub min_x: i64,
    pub max_x: i64,
    pub min_y: i64,
    pub max_y: i64,
}

/// `v` clamped to the interval `[lo, hi]`.
pub open spec fn spec_clamp(v: int, lo: int, hi: int) -> int {
    if v < lo {
        lo
    } else if v > hi {
        hi
    } else {
        v
    }
}

/// The linear remap of one axis: clamp to `[lo, hi]`, then rescale so that
/// `lo` maps to `0` and `hi` maps to `OUTPUT_MAX` (rounded down).
pub open spec fn spec_map_axis(v: int, lo: int, hi: int) -> int {
    (spec_clamp(v, lo, hi) - lo) * OUTPUT_MAX / (hi - lo)
}

impl SourceRect {
    /// A valid configuration: non-degenerate on both axes, with bounds small
    /// enough for exact integer rescaling.
    pub open spec fn wf(self) -> bool {
        &&& -RECT_LIMIT <= self.min_x < self.max_x <= RECT_LIMIT
        &&& -RECT_LIMIT <= self.min_y < self.max_y <= RECT_LIMIT
    }

    /// The centered sub-rectangle with half the width and half the height
    /// of `self`: the central quarter of the surface, sharing its center.
    ///
    /// Each axis keeps half its extent (rounded down) and is re-centered so
    /// that the halved interval shares the midpoint of the full one.
    pub fn centered_section(&self) -> (r: SourceRect)
        requires
            self.wf(),
            self.max_x - self.min_x >= 2,
            self.max_y - self.min_y >= 2,
        ensures
            r.min_x == self.min_x
                + (self.max_x - self.min_x - (self.max_x - self.min_x) / 2) / 2,
            r.max_x == r.min_x + (self.max_x - self.min_x) / 2,
            r.min_y == self.min_y
                + (self.max_y - self.min_y - (self.max_y - self.min_y) / 2) / 2,
            r.max_y == r.min_y + (self.max_y - self.min_y) / 2,
            r.wf(),
    {
        let (min_x, max_x) = centered_half(self.min_x, self.max_x);
        let (min_y, max_y) = centered_half(self.min_y, self.max_y);
        SourceRect { min_x, max_x, min_y, max_y }
    }

    /// Remaps a raw device coordinate into the output space.
    ///
    /// The result is exactly the clamped linear remap of each axis, and lies
    /// in the output space for every raw input, however far outside the
    /// configured rectangle it falls.
    pub fn map(&self, raw: Point) -> (r: Point)
        requires
            self.wf(),
        ensures
            r.x == spec_map_axis(raw.x as int, self.min_x as int, self.max_x as int),
            r.y == spec_map_axis(raw.y as int, self.min_y as int, self.max_y as int),
            r.in_output_space(),
    {
        let x = map_axis(raw.x, self.min_x, self.max_x);
        let y = map_axis(raw.y, self.min_y, self.max_y);
        Point { x, y }
    }
}

/// Halves one axis of an interval and re-centers it on the same midpoint.
fn centered_half(lo: i64, hi: i64) -> (r: (i64, i64))
    requires
        -RECT_LIMIT <= lo < hi <= RECT_LIMIT,
        hi - lo >= 2,
    ensures
        r.0 == lo + (hi - lo - (hi - lo) / 2) / 2,
        r.1 == r.0 + (hi - lo) / 2,
        -RECT_LIMIT <= r.0 < r.1 <= RECT_LIMIT,
{
    let extent: i64 = hi - lo;
    let half: i64 = extent / 2;
    let new_lo: i64 = lo + (extent - half) / 2;
    let new_hi: i64 = new_lo + half;
    proof {
        assert(1 <= half <= extent - half) by {
            assert(extent / 2 >= 1 && 2 * (extent / 2) <= extent);
        }
        assert((extent - half) / 2 <= extent - half);
        assert(new_hi <= hi);
    }
    (new_lo, new_hi)
}

/// Remaps one axis; the whole mapper is this computation applied twice.
fn map_axis(v: i64, lo: i64, hi: i64) -> (r: i64)
    requires
        -RECT_LIMIT <= lo < hi <= RECT_LIMIT,
    ensures
        r == spec_map_axis(v as int, lo as int, hi as int),
        0 <= r <= OUTPUT_MAX,
{
    let clamped: i64 = if v < lo {
        lo
    } else if v > hi {
        hi
    } else {
        v
    };
    let offset: i64 = clamped - lo;
    let range: i64 = hi - lo;
    let scaled: i64 = offset * OUTPUT_MAX;
    let r: i64 = scaled / range;
    proof {
        lemma_rescale_bounds(offset as int, range as int);
    }
    r
}

/// Rescaling a clamped offset cannot leave the output space: for
/// `0 <= d <= n`, `d * OUTPUT_MAX / n` lies in `[0, OUTPUT_MAX]`.
proof fn lemma_rescale_bounds(d: int, n: int)
    requires
        0 < n,
        0 <= d <= n,
    ensures
        0 <= d * OUTPUT_MAX / n <= OUTPUT_MAX,
{
    assert(0 <= d * OUTPUT_MAX / n <= OUTPUT_MAX) by (nonlinear_arith)
        requires
            0 < n,
            0 <= d <= n,
    ;
}

} // verus!

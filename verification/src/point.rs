//! Integer 2D coordinates and the squared Euclidean distance between them.
//!
//! All pipeline stages work on integer coordinates: raw device units on the
//! input side, and the fixed output space `[0, OUTPUT_MAX] x [0, OUTPUT_MAX]`
//! after remapping. Distances are compared through their squares, which is
//! exact: for non-negative bounds `t`, `dist(a, b) > t` holds iff
//! `dist_sq(a, b) > t * t`.

use vstd::prelude::*;

verus! {

/// Upper bound of the output coordinate space on both axes.
pub const OUTPUT_MAX: i64 = 1000;

/// Coordinates at or below this magnitude are safe for every squared-distance
/// computation the pipeline performs.
pub const COORD_LIMIT: i64 = 1000000;

/// A two-dimensional coordinate in integer units.
#[derive(Clone, Copy, PartialEq, Eq, Structural, Debug)]
pub struct Point {
    pub x: i64,
    pub y: i64,
}

impl Point {
    /// The squared Euclidean distance between two points.
    pub open spec fn dist_sq(self, other: Point) -> int {
        (self.x - other.x) * (self.x - other.x) + (self.y - other.y) * (self.y - other.y)
    }

    /// Both components lie within the output coordinate space.
    pub open spec fn in_output_space(self) -> bool {
        0 <= self.x <= OUTPUT_MAX && 0 <= self.y <= OUTPUT_MAX
    }

    /// Both components have magnitude at most `COORD_LIMIT`.
    pub open spec fn bounded(self) -> bool {
        -COORD_LIMIT <= self.x <= COORD_LIMIT && -COORD_LIMIT <= self.y <= COORD_LIMIT
    }

    /// Both components fit in the 32-bit range raw device reports use.
    pub open spec fn in_device_range(self) -> bool {
        -0x8000_0000 <= self.x <= 0x7fff_ffff && -0x8000_0000 <= self.y <= 0x7fff_ffff
    }

    /// The squared Euclidean distance to `other`.
    pub fn distance_sq(self, other: Point) -> (r: i64)
        requires
            self.bounded(),
            other.bounded(),
        ensures
            r == self.dist_sq(other),
    {
        let dx: i64 = self.x - other.x;
        let dy: i64 = self.y - other.y;
        proof {
            assert(0 <= dx * dx <= 2000000 * 2000000) by (nonlinear_arith)
                requires -2000000 <= dx <= 2000000;
            assert(0 <= dy * dy <= 2000000 * 2000000) by (nonlinear_arith)
                requires -2000000 <= dy <= 2000000;
        }
        dx * dx + dy * dy
    }
}

} // verus!

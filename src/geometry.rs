use vstd::prelude::*;

verus! {

/// Bound on the magnitude of every coordinate, dimension and per-tick speed,
/// so that a position plus a speed always fits in an `i64`.
pub const COORD_LIMIT: i64 = 1_000_000_000;

/// A point or a per-tick displacement on the integer play field.
#[derive(Clone, Copy, Debug, PartialEq, Eq, Structural)]
pub struct Vec2 {
    pub x: i64,
    pub y: i64,
}

/// Whether `v` lies within the coordinate bound.
pub open spec fn in_limit(v: i64) -> bool {
    -COORD_LIMIT <= v <= COORD_LIMIT
}

/// `v` moved into `[lo, hi]`.
pub open spec fn clamp(v: int, lo: int, hi: int) -> int {
    if v < lo {
        lo
    } else if v > hi {
        hi
    } else {
        v
    }
}

pub fn clamp_i64(v: i64, lo: i64, hi: i64) -> (r: i64)
    requires
        lo <= hi,
    ensures
        r == clamp(v as int, lo as int, hi as int),
        lo <= r <= hi,
{
    if v < lo {
        lo
    } else if v > hi {
        hi
    } else {
        v
    }
}

} // verus!

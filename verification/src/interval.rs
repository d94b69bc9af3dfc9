//! Closed scalar intervals, used for valid hit-depth windows and for
//! bounding-box extents.
//!
//! `FX_MAX` and `FX_MIN` stand in for the infinities: `empty()` is
//! `[+inf, -inf]` and contains nothing, `universe()` is every scalar.

use vstd::prelude::*;

use crate::fixed::{fx_add, fx_div, fx_max, fx_max_i, fx_min, fx_min_i, fx_sub, sat64, FX_MAX, FX_MIN, ONE};

verus! {

/// A closed interval `[min, max]` of fixed-point scalars.
#[derive(Debug, Clone, Copy, PartialEq, Eq, Structural)]
pub struct Interval {
    pub min: i64,
    pub max: i64,
}

/// The hull of two intervals: the smallest interval holding both.
pub open spec fn iv_union(a: Interval, b: Interval) -> Interval {
    Interval { min: fx_min_i(a.min, b.min), max: fx_max_i(a.max, b.max) }
}

/// Interval union is commutative.
pub proof fn lemma_iv_union_commutative(a: Interval, b: Interval)
    ensures
        iv_union(a, b) == iv_union(b, a),
{
}

/// Interval union is associative.
pub proof fn lemma_iv_union_associative(a: Interval, b: Interval, c: Interval)
    ensures
        iv_union(iv_union(a, b), c) == iv_union(a, iv_union(b, c)),
{
}

/// Interval union is idempotent.
pub proof fn lemma_iv_union_idempotent(a: Interval)
    ensures
        iv_union(a, a) == a,
{
}

impl Interval {
    /// The empty interval: `[+inf, -inf]`, which contains nothing.
    pub fn empty() -> (r: Self)
        ensures
            r == (Interval { min: FX_MAX, max: FX_MIN }),
    {
        Interval { min: FX_MAX, max: FX_MIN }
    }

    /// The interval of every scalar.
    pub fn universe() -> (r: Self)
        ensures
            r == (Interval { min: FX_MIN, max: FX_MAX }),
    {
        Interval { min: FX_MIN, max: FX_MAX }
    }

    /// An interval from its two bounds.
    pub fn new(min: i64, max: i64) -> (r: Self)
        ensures
            r == (Interval { min, max }),
    {
        Interval { min, max }
    }

    /// The hull of two intervals.
    pub fn from_interval_bounds(interval1: &Self, interval2: &Self) -> (r: Self)
        ensures
            r == iv_union(*interval1, *interval2),
    {
        Interval {
            min: fx_min(interval1.min, interval2.min),
            max: fx_max(interval1.max, interval2.max),
        }
    }

    /// The width of the interval (saturating; negative when empty).
    pub fn size(&self) -> (r: i64)
        ensures
            r as int == sat64(self.max - self.min),
    {
        fx_sub(self.max, self.min)
    }

    /// Whether `x` lies in the closed interval.
    pub fn contains(&self, x: i64) -> (r: bool)
        ensures
            r == (self.min <= x && x <= self.max),
    {
        self.min <= x && x <= self.max
    }

    /// Whether `x` lies strictly inside the interval.
    pub fn surrounds(&self, x: i64) -> (r: bool)
        ensures
            r == (self.min < x && x < self.max),
    {
        self.min < x && x < self.max
    }

    /// The interval widened by `delta / 2` on each side.
    pub fn expand(&self, delta: i64) -> (r: Self)
        ensures
            r.min as int == sat64(self.min - fx_div_half(delta)),
            r.max as int == sat64(self.max + fx_div_half(delta)),
    {
        let padding: i64 = fx_div(delta, 2 * ONE);
        Interval { min: fx_sub(self.min, padding), max: fx_add(self.max, padding) }
    }

    /// `x` forced into the interval.
    pub fn clamp(&self, x: i64) -> (r: i64)
        ensures
            r == if x < self.min {
                self.min
            } else if x > self.max {
                self.max
            } else {
                x
            },
    {
        if x < self.min {
            self.min
        } else if x > self.max {
            self.max
        } else {
            x
        }
    }
}

/// Half of a scalar, truncated toward zero: the padding `expand` uses.
pub open spec fn fx_div_half(delta: i64) -> int {
    crate::fixed::fx_div_s(delta as int, 2 * ONE)
}

} // verus!

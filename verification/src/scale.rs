//! Scale descriptors: a bounded range of one quantity type, with
//! normalization and interpolation over it.
//!
//! The numerals in the proof blocks are powers of `QUANTITY_BOUND` (two to
//! the seventeenth): its square, twice its square, `FRACTION_BOUND` (twice
//! its fourth power), and the products of those; they track how large each
//! intermediate of the algebra can grow, all of which stay inside `i128`.

use crate::rational::lemma_mul_bound;
use crate::rational::lemma_mul_nonneg;
use crate::rational::q_eq;
use crate::rational::q_le;
use crate::rational::q_lerp;
use crate::rational::q_norm;
use crate::rational::q_sub;
use crate::rational::Rational;
use crate::unit::ScaleUnit;
use crate::unit::Time;
use vstd::prelude::*;

verus! {

/// The capability shared by every scale descriptor: fixed lower and upper
/// bounds over one quantity type. An inverted range (`min` greater than
/// `max`) is legal and simply reverses the interpolation direction.
pub trait Scale<T> {
    /// The scale's lower bound.
    spec fn spec_min(&self) -> T;

    /// The scale's upper bound.
    spec fn spec_max(&self) -> T;

    /// The lower bound, as a unit value.
    fn min(&self) -> (r: ScaleUnit<T>)
        ensures
            r.0 == self.spec_min(),
    ;

    /// The upper bound, as a unit value.
    fn max(&self) -> (r: ScaleUnit<T>)
        ensures
            r.0 == self.spec_max(),
    ;
}

/// A scale over plain real numbers, held as exact rationals.
#[derive(Clone, Copy, Debug)]
pub struct LinearScale {
    pub min: Rational,
    pub max: Rational,
}

/// A scale over non-negative time durations.
#[derive(Clone, Copy, Debug)]
pub struct TimeScale {
    pub min: Time,
    pub max: Time,
}

impl Scale<Rational> for LinearScale {
    open spec fn spec_min(&self) -> Rational {
        self.min
    }

    open spec fn spec_max(&self) -> Rational {
        self.max
    }

    fn min(&self) -> (r: ScaleUnit<Rational>) {
        ScaleUnit(self.min)
    }

    fn max(&self) -> (r: ScaleUnit<Rational>) {
        ScaleUnit(self.max)
    }
}

impl Scale<Time> for TimeScale {
    open spec fn spec_min(&self) -> Time {
        self.min
    }

    open spec fn spec_max(&self) -> Time {
        self.max
    }

    fn min(&self) -> (r: ScaleUnit<Time>) {
        ScaleUnit(self.min)
    }

    fn max(&self) -> (r: ScaleUnit<Time>) {
        ScaleUnit(self.max)
    }
}

impl LinearScale {
    /// Both bounds are well-formed rationals.
    pub open spec fn wf(self) -> bool {
        self.min.wf() && self.max.wf()
    }

    /// Both bounds are small enough for the scale algebra.
    pub open spec fn bounded(self) -> bool {
        self.min.bounded() && self.max.bounded()
    }

    /// A zero-width range: both bounds denote the same value.
    pub open spec fn degenerate(self) -> bool {
        q_eq(self.min@, self.max@)
    }

    /// The scale over the closed range from `min` to `max`.
    pub fn new(min: Rational, max: Rational) -> (r: LinearScale)
        requires
            min.wf(),
            max.wf(),
        ensures
            r.min == min,
            r.max == max,
    {
        LinearScale { min, max }
    }

    /// The width of the range, `max - min`.
    pub fn range(&self) -> (r: ScaleUnit<Rational>)
        requires
            self.wf(),
            self.bounded(),
        ensures
            r.0.wf(),
            r.0@ == q_sub(self.max@, self.min@),
    {
        proof {
            lemma_mul_bound(self.max.num as int, self.min.den as int, 131072, 131072);
            lemma_mul_bound(self.min.num as int, self.max.den as int, 131072, 131072);
            lemma_mul_bound(self.max.den as int, self.min.den as int, 131072, 131072);
        }
        self.max().subtract(self.min())
    }

    /// How far `value` lies between `min` and `max`, as an exact fraction of
    /// the range: zero on a degenerate range, `(value - min) / (max - min)`
    /// otherwise. The result is not clamped, so values outside the bounds
    /// yield fractions outside zero to one.
    pub fn norm(&self, value: ScaleUnit<Rational>) -> (r: Rational)
        requires
            self.wf(),
            self.bounded(),
            value.0.wf(),
            value.0.bounded(),
        ensures
            r.wf(),
            r.frac_bounded(),
            r@ == q_norm(self.min@, self.max@, value.0@),
    {
        proof {
            lemma_mul_bound(self.min.num as int, self.max.den as int, 131072, 131072);
            lemma_mul_bound(self.max.num as int, self.min.den as int, 131072, 131072);
        }
        if self.min.equals(&self.max) {
            return Rational::zero();
        }
        proof {
            lemma_mul_bound(value.0.num as int, self.min.den as int, 131072, 131072);
            lemma_mul_bound(self.min.num as int, value.0.den as int, 131072, 131072);
            lemma_mul_bound(value.0.den as int, self.min.den as int, 131072, 131072);
            lemma_mul_bound(self.max.den as int, self.min.den as int, 131072, 131072);
        }
        let diff = value.subtract(self.min());
        let range = self.range();
        proof {
            lemma_mul_bound(diff.0.num as int, range.0.den as int, 34359738368, 17179869184);
            lemma_mul_bound(diff.0.den as int, range.0.num as int, 17179869184, 34359738368);
        }
        diff.ratio(range)
    }

    /// The value at fraction `t` of the range, `min + t * (max - min)`. The
    /// fraction is not clamped, so fractions outside zero to one extrapolate
    /// beyond the bounds.
    pub fn lerp(&self, t: Rational) -> (r: ScaleUnit<Rational>)
        requires
            self.wf(),
            self.bounded(),
            t.wf(),
            t.frac_bounded(),
        ensures
            r.0.wf(),
            r.0@ == q_lerp(self.min@, self.max@, t@),
    {
        proof {
            lemma_mul_bound(self.max.num as int, self.min.den as int, 131072, 131072);
            lemma_mul_bound(self.min.num as int, self.max.den as int, 131072, 131072);
            lemma_mul_bound(self.max.den as int, self.min.den as int, 131072, 131072);
        }
        let range = self.range();
        proof {
            lemma_mul_bound(t.num as int, range.0.num as int, 590295810358705651712, 34359738368);
            lemma_mul_bound(t.den as int, range.0.den as int, 590295810358705651712, 17179869184);
        }
        let scaled = range.scale_by(t);
        proof {
            lemma_mul_bound(self.min.num as int, scaled.0.den as int, 131072, 10141204801825835211973625643008);
            lemma_mul_bound(scaled.0.num as int, self.min.den as int, 20282409603651670423947251286016, 131072);
            lemma_mul_bound(self.min.den as int, scaled.0.den as int, 131072, 10141204801825835211973625643008);
        }
        self.min().add(scaled)
    }
}

impl TimeScale {
    /// Both bounds are well-formed, non-negative durations.
    pub open spec fn wf(self) -> bool {
        self.min.wf() && self.max.wf()
    }

    /// Both bounds are small enough for the scale algebra.
    pub open spec fn bounded(self) -> bool {
        self.min.bounded() && self.max.bounded()
    }

    /// A zero-width range: both bounds denote the same span.
    pub open spec fn degenerate(self) -> bool {
        q_eq(self.min@, self.max@)
    }

    /// The scale over the closed range from `min` to `max`.
    pub fn new(min: Time, max: Time) -> (r: TimeScale)
        requires
            min.wf(),
            max.wf(),
        ensures
            r.min == min,
            r.max == max,
    {
        TimeScale { min, max }
    }

    /// The width of the range, `max - min`. A duration cannot be negative, so
    /// the range must not be inverted.
    pub fn range(&self) -> (r: ScaleUnit<Time>)
        requires
            self.wf(),
            self.bounded(),
            q_le(self.min@, self.max@),
        ensures
            r.0.wf(),
            r.0@ == q_sub(self.max@, self.min@),
    {
        proof {
            lemma_mul_bound(self.max.val.num as int, self.min.val.den as int, 131072, 131072);
            lemma_mul_bound(self.min.val.num as int, self.max.val.den as int, 131072, 131072);
            lemma_mul_bound(self.max.val.den as int, self.min.val.den as int, 131072, 131072);
        }
        self.max().subtract(self.min())
    }

    /// How far `value` lies between `min` and `max`, as an exact fraction of
    /// the range: zero on a degenerate range, `(value - min) / (max - min)`
    /// otherwise. On a non-degenerate range, duration arithmetic demands that
    /// the range is not inverted and that `value` is not below `min`.
    pub fn norm(&self, value: ScaleUnit<Time>) -> (r: Rational)
        requires
            self.wf(),
            self.bounded(),
            value.0.wf(),
            value.0.bounded(),
            self.degenerate() || (q_le(self.min@, value.0@) && q_le(self.min@, self.max@)),
        ensures
            r.wf(),
            r.frac_bounded(),
            0 <= r.num,
            r@ == q_norm(self.min@, self.max@, value.0@),
    {
        proof {
            lemma_mul_bound(self.min.val.num as int, self.max.val.den as int, 131072, 131072);
            lemma_mul_bound(self.max.val.num as int, self.min.val.den as int, 131072, 131072);
        }
        if self.min.equals(&self.max) {
            return Rational::zero();
        }
        proof {
            lemma_mul_bound(value.0.val.num as int, self.min.val.den as int, 131072, 131072);
            lemma_mul_bound(self.min.val.num as int, value.0.val.den as int, 131072, 131072);
            lemma_mul_bound(value.0.val.den as int, self.min.val.den as int, 131072, 131072);
            lemma_mul_bound(self.max.val.den as int, self.min.val.den as int, 131072, 131072);
        }
        let diff = value.subtract(self.min());
        let range = self.range();
        proof {
            lemma_mul_bound(diff.0.val.num as int, range.0.val.den as int, 34359738368, 17179869184);
            lemma_mul_bound(diff.0.val.den as int, range.0.val.num as int, 17179869184, 34359738368);
            lemma_mul_nonneg(diff.0.val.num as int, range.0.val.den as int);
        }
        diff.ratio(range)
    }

    /// The value at fraction `t` of the range, `min + t * (max - min)`.
    /// Duration arithmetic demands that the range is not inverted and that
    /// the scaled span is not negative, so on a non-degenerate range the
    /// fraction must not be negative.
    pub fn lerp(&self, t: Rational) -> (r: ScaleUnit<Time>)
        requires
            self.wf(),
            self.bounded(),
            t.wf(),
            t.frac_bounded(),
            q_le(self.min@, self.max@),
            0 <= t.num || self.degenerate(),
        ensures
            r.0.wf(),
            r.0@ == q_lerp(self.min@, self.max@, t@),
    {
        proof {
            lemma_mul_bound(self.max.val.num as int, self.min.val.den as int, 131072, 131072);
            lemma_mul_bound(self.min.val.num as int, self.max.val.den as int, 131072, 131072);
            lemma_mul_bound(self.max.val.den as int, self.min.val.den as int, 131072, 131072);
        }
        let range = self.range();
        proof {
            lemma_mul_bound(t.num as int, range.0.val.num as int, 590295810358705651712, 34359738368);
            lemma_mul_bound(t.den as int, range.0.val.den as int, 590295810358705651712, 17179869184);
            if range.0.val.num == 0 {
                vstd::arithmetic::mul::lemma_mul_by_zero_is_zero(t.num as int);
            } else {
                lemma_mul_nonneg(t.num as int, range.0.val.num as int);
            }
        }
        let scaled = range.scale_by(t);
        proof {
            lemma_mul_bound(self.min.val.num as int, scaled.0.val.den as int, 131072, 10141204801825835211973625643008);
            lemma_mul_bound(scaled.0.val.num as int, self.min.val.den as int, 20282409603651670423947251286016, 131072);
            lemma_mul_bound(self.min.val.den as int, scaled.0.val.den as int, 131072, 10141204801825835211973625643008);
        }
        self.min().add(scaled)
    }
}

} // verus!

//! The unit wrapper and the quantity algebra: addition, subtraction, ratio
//! and scaling by a fraction, specialized for each supported quantity type.

use crate::rational::fits;
use crate::rational::lemma_mul_pos;
use crate::rational::q_add;
use crate::rational::q_div;
use crate::rational::q_eq;
use crate::rational::q_le;
use crate::rational::q_mul;
use crate::rational::q_sub;
use crate::rational::Rational;
use crate::rational::QUANTITY_BOUND;
use vstd::prelude::*;

verus! {

/// A raw quantity tagged as living in scale space. Arithmetic is defined only
/// homogeneously, per concrete quantity type.
#[derive(Clone, Copy, Debug)]
pub struct ScaleUnit<T>(pub T);

/// A non-negative time duration, held as an exact rational number of seconds.
#[derive(Clone, Copy, Debug)]
pub struct Time {
    pub val: Rational,
}

impl View for Time {
    type V = (int, int);

    open spec fn view(&self) -> (int, int) {
        self.val@
    }
}

impl Time {
    /// A well-formed duration is a well-formed, non-negative rational.
    pub open spec fn wf(self) -> bool {
        self.val.wf() && 0 <= self.val.num
    }

    /// Small enough to serve as a scale bound or a scale value.
    pub open spec fn bounded(self) -> bool {
        self.val.bounded()
    }

    /// The duration of `val` seconds.
    pub fn new(val: Rational) -> (r: Time)
        requires
            val.wf(),
            0 <= val.num,
        ensures
            r.wf(),
            r@ == val@,
    {
        Time { val }
    }

    /// The duration of a whole number of seconds.
    pub fn from_secs(secs: u32) -> (r: Time)
        ensures
            r.wf(),
            r@ == (secs as int, 1int),
            secs as int <= QUANTITY_BOUND as int ==> r.bounded(),
    {
        Time { val: Rational::new(secs as i128, 1) }
    }

    /// Whether the two durations denote the same span.
    pub fn equals(&self, other: &Time) -> (r: bool)
        requires
            self.wf(),
            other.wf(),
            fits(self.val.num * other.val.den),
            fits(other.val.num * self.val.den),
        ensures
            r == q_eq(self@, other@),
    {
        self.val.equals(&other.val)
    }
}

impl ScaleUnit<Rational> {
    /// Pointwise addition of the two wrapped quantities.
    pub fn add(self, rhs: ScaleUnit<Rational>) -> (r: ScaleUnit<Rational>)
        requires
            self.0.wf(),
            rhs.0.wf(),
            fits(self.0.num * rhs.0.den),
            fits(rhs.0.num * self.0.den),
            fits(self.0.num * rhs.0.den + rhs.0.num * self.0.den),
            fits(self.0.den * rhs.0.den),
        ensures
            r.0.wf(),
            r.0@ == q_add(self.0@, rhs.0@),
    {
        let num: i128 = self.0.num * rhs.0.den + rhs.0.num * self.0.den;
        let den: i128 = self.0.den * rhs.0.den;
        proof {
            lemma_mul_pos(self.0.den as int, rhs.0.den as int);
        }
        ScaleUnit(Rational { num, den })
    }

    /// Pointwise subtraction of the two wrapped quantities.
    pub fn subtract(self, rhs: ScaleUnit<Rational>) -> (r: ScaleUnit<Rational>)
        requires
            self.0.wf(),
            rhs.0.wf(),
            fits(self.0.num * rhs.0.den),
            fits(rhs.0.num * self.0.den),
            fits(self.0.num * rhs.0.den - rhs.0.num * self.0.den),
            fits(self.0.den * rhs.0.den),
        ensures
            r.0.wf(),
            r.0@ == q_sub(self.0@, rhs.0@),
    {
        let num: i128 = self.0.num * rhs.0.den - rhs.0.num * self.0.den;
        let den: i128 = self.0.den * rhs.0.den;
        proof {
            lemma_mul_pos(self.0.den as int, rhs.0.den as int);
        }
        ScaleUnit(Rational { num, den })
    }

    /// The exact quotient of the two wrapped quantities.
    pub fn ratio(self, rhs: ScaleUnit<Rational>) -> (r: Rational)
        requires
            self.0.wf(),
            rhs.0.wf(),
            rhs.0.num != 0,
            fits(self.0.num * rhs.0.den),
            fits(-(self.0.num * rhs.0.den)),
            fits(self.0.den * rhs.0.num),
            fits(-(self.0.den * rhs.0.num)),
        ensures
            r.wf(),
            r@ == q_div(self.0@, rhs.0@),
    {
        if rhs.0.num >= 0 {
            proof {
                lemma_mul_pos(self.0.den as int, rhs.0.num as int);
            }
            Rational { num: self.0.num * rhs.0.den, den: self.0.den * rhs.0.num }
        } else {
            proof {
                crate::rational::lemma_mul_pos_neg(self.0.den as int, rhs.0.num as int);
            }
            Rational { num: -(self.0.num * rhs.0.den), den: -(self.0.den * rhs.0.num) }
        }
    }

    /// The wrapped quantity multiplied by a fraction.
    pub fn scale_by(self, fraction: Rational) -> (r: ScaleUnit<Rational>)
        requires
            self.0.wf(),
            fraction.wf(),
            fits(fraction.num * self.0.num),
            fits(fraction.den * self.0.den),
        ensures
            r.0.wf(),
            r.0@ == q_mul(fraction@, self.0@),
    {
        proof {
            lemma_mul_pos(fraction.den as int, self.0.den as int);
        }
        ScaleUnit(Rational { num: fraction.num * self.0.num, den: fraction.den * self.0.den })
    }

    /// Whether the two wrapped quantities are equal in value.
    pub fn equals(&self, rhs: &ScaleUnit<Rational>) -> (r: bool)
        requires
            self.0.wf(),
            rhs.0.wf(),
            fits(self.0.num * rhs.0.den),
            fits(rhs.0.num * self.0.den),
        ensures
            r == q_eq(self.0@, rhs.0@),
    {
        self.0.equals(&rhs.0)
    }
}

impl ScaleUnit<Time> {
    /// Pointwise addition of the two wrapped durations.
    pub fn add(self, rhs: ScaleUnit<Time>) -> (r: ScaleUnit<Time>)
        requires
            self.0.wf(),
            rhs.0.wf(),
            fits(self.0.val.num * rhs.0.val.den),
            fits(rhs.0.val.num * self.0.val.den),
            fits(self.0.val.num * rhs.0.val.den + rhs.0.val.num * self.0.val.den),
            fits(self.0.val.den * rhs.0.val.den),
        ensures
            r.0.wf(),
            r.0@ == q_add(self.0@, rhs.0@),
    {
        let num: i128 = self.0.val.num * rhs.0.val.den + rhs.0.val.num * self.0.val.den;
        let den: i128 = self.0.val.den * rhs.0.val.den;
        proof {
            lemma_mul_pos(self.0.val.den as int, rhs.0.val.den as int);
            crate::rational::lemma_mul_nonneg(self.0.val.num as int, rhs.0.val.den as int);
            crate::rational::lemma_mul_nonneg(rhs.0.val.num as int, self.0.val.den as int);
        }
        ScaleUnit(Time { val: Rational { num, den } })
    }

    /// Pointwise subtraction of the two wrapped durations. A negative span is
    /// not a duration, so the subtrahend may not exceed the minuend.
    pub fn subtract(self, rhs: ScaleUnit<Time>) -> (r: ScaleUnit<Time>)
        requires
            self.0.wf(),
            rhs.0.wf(),
            q_le(rhs.0@, self.0@),
            fits(self.0.val.num * rhs.0.val.den),
            fits(rhs.0.val.num * self.0.val.den),
            fits(self.0.val.den * rhs.0.val.den),
        ensures
            r.0.wf(),
            r.0@ == q_sub(self.0@, rhs.0@),
    {
        let num: i128 = self.0.val.num * rhs.0.val.den - rhs.0.val.num * self.0.val.den;
        let den: i128 = self.0.val.den * rhs.0.val.den;
        proof {
            lemma_mul_pos(self.0.val.den as int, rhs.0.val.den as int);
        }
        ScaleUnit(Time { val: Rational { num, den } })
    }

    /// The exact quotient of the two wrapped durations.
    pub fn ratio(self, rhs: ScaleUnit<Time>) -> (r: Rational)
        requires
            self.0.wf(),
            rhs.0.wf(),
            rhs.0.val.num != 0,
            fits(self.0.val.num * rhs.0.val.den),
            fits(self.0.val.den * rhs.0.val.num),
        ensures
            r.wf(),
            r@ == q_div(self.0@, rhs.0@),
    {
        proof {
            lemma_mul_pos(self.0.val.den as int, rhs.0.val.num as int);
        }
        Rational { num: self.0.val.num * rhs.0.val.den, den: self.0.val.den * rhs.0.val.num }
    }

    /// The wrapped duration multiplied by a fraction. The product may not be
    /// negative, since a negative span is not a duration.
    pub fn scale_by(self, fraction: Rational) -> (r: ScaleUnit<Time>)
        requires
            self.0.wf(),
            fraction.wf(),
            0 <= fraction.num * self.0.val.num,
            fits(fraction.num * self.0.val.num),
            fits(fraction.den * self.0.val.den),
        ensures
            r.0.wf(),
            r.0@ == q_mul(fraction@, self.0@),
    {
        proof {
            lemma_mul_pos(fraction.den as int, self.0.val.den as int);
        }
        ScaleUnit(Time {
            val: Rational {
                num: fraction.num * self.0.val.num,
                den: fraction.den * self.0.val.den,
            },
        })
    }

    /// Whether the two wrapped durations are equal in value.
    pub fn equals(&self, rhs: &ScaleUnit<Time>) -> (r: bool)
        requires
            self.0.wf(),
            rhs.0.wf(),
            fits(self.0.val.num * rhs.0.val.den),
            fits(rhs.0.val.num * self.0.val.den),
        ensures
            r == q_eq(self.0@, rhs.0@),
    {
        self.0.equals(&rhs.0)
    }
}

} // verus!

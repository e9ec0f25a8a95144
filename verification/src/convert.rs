//! The cross-scale converter: one source scale and one destination scale of a
//! different quantity type, composed through the shared normalized fraction.

use crate::rational::q_le;
use crate::rational::q_lerp;
use crate::rational::q_norm;
use crate::rational::Rational;
use crate::scale::LinearScale;
use crate::scale::TimeScale;
use crate::unit::ScaleUnit;
use crate::unit::Time;
use vstd::prelude::*;

verus! {

/// A pure mapping from values on a real-number scale to values on a duration
/// scale. It exclusively owns its two scale descriptors and carries no other
/// state: applying it normalizes the input against the source and
/// interpolates the fraction against the destination.
#[derive(Clone, Copy, Debug)]
pub struct Converter {
    pub src: LinearScale,
    pub dst: TimeScale,
}

impl Converter {
    /// Both owned scales are well-formed.
    pub open spec fn wf(self) -> bool {
        self.src.wf() && self.dst.wf()
    }

    /// Both owned scales are small enough for the scale algebra.
    pub open spec fn bounded(self) -> bool {
        self.src.bounded() && self.dst.bounded()
    }

    /// The fraction at which the converter reads a given input.
    pub open spec fn spec_fraction(self, value: ScaleUnit<Rational>) -> (int, int) {
        q_norm(self.src.min@, self.src.max@, value.0@)
    }

    /// Maps `value` to the destination scale:
    /// `dst.lerp(src.norm(value))`. Duration arithmetic demands that the
    /// destination range is not inverted and, unless the destination is
    /// degenerate, that the source fraction is not negative.
    pub fn apply(&self, value: ScaleUnit<Rational>) -> (r: ScaleUnit<Time>)
        requires
            self.wf(),
            self.bounded(),
            value.0.wf(),
            value.0.bounded(),
            q_le(self.dst.min@, self.dst.max@),
            0 <= self.spec_fraction(value).0 || self.dst.degenerate(),
        ensures
            r.0.wf(),
            r.0@ == q_lerp(self.dst.min@, self.dst.max@, self.spec_fraction(value)),
    {
        let t = self.src.norm(value);
        self.dst.lerp(t)
    }
}

/// Builds the converter owning the given source and destination scales.
pub fn linear_converter_test(src: LinearScale, dst: TimeScale) -> (r: Converter)
    ensures
        r.src == src,
        r.dst == dst,
{
    Converter { src, dst }
}

} // verus!

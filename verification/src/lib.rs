//! Linear value scales over exact quantities.
//!
//! A scale describes a closed range of one quantity type through a `min` and a
//! `max` bound. It can normalize a value into a fraction of the range and
//! interpolate a fraction back into a value; a converter composes two scales
//! of possibly different quantity types through the shared fraction.
//!
//! Two quantity types are provided: a plain real number and a non-negative
//! time duration. Both are represented as exact rational numbers, so that
//! normalization and interpolation are exact inverses of one another and the
//! scale laws hold with equality rather than up to rounding.

use vstd::prelude::*;

mod convert;
mod laws;
mod rational;
mod scale;
mod unit;

pub use convert::linear_converter_test;
pub use convert::Converter;
pub use laws::lemma_converter_degenerate_source;
pub use laws::lemma_converter_identity;
pub use laws::lemma_converter_is_identity;
pub use laws::lemma_degenerate_converter;
pub use laws::lemma_degenerate_normalize;
pub use laws::lemma_interpolate_linear;
pub use laws::lemma_normalize_max;
pub use laws::lemma_normalize_min;
pub use laws::lemma_round_trip;
pub use laws::lemma_scale_boundaries;
pub use laws::lemma_scale_round_trip;
pub use laws::lemma_time_scale_boundaries;
pub use laws::lemma_time_scale_round_trip;
pub use rational::fits;
pub use rational::q_add;
pub use rational::q_div;
pub use rational::q_eq;
pub use rational::q_le;
pub use rational::q_lerp;
pub use rational::q_mul;
pub use rational::q_norm;
pub use rational::q_sub;
pub use rational::Rational;
pub use rational::FRACTION_BOUND;
pub use rational::QUANTITY_BOUND;
pub use scale::LinearScale;
pub use scale::Scale;
pub use scale::TimeScale;
pub use unit::ScaleUnit;
pub use unit::Time;

verus! {

/// Sum of two counts.
pub fn add(left: usize, right: usize) -> (r: usize)
    requires
        left + right <= usize::MAX,
    ensures
        r == left + right,
{
    left + right
}

} // verus!

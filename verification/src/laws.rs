//! The laws of the scale algebra, proved once over the rational pair model
//! that every scale contract speaks of.

use crate::convert::Converter;
use crate::rational::q_add;
use crate::rational::q_eq;
use crate::rational::q_lerp;
use crate::rational::q_mul;
use crate::rational::q_norm;
use crate::rational::Rational;
use crate::scale::LinearScale;
use crate::scale::TimeScale;
use crate::unit::ScaleUnit;
use crate::unit::Time;
use vstd::prelude::*;

verus! {

/// Degenerate-range law: on a scale whose bounds are equal in value,
/// normalize yields exactly zero, whatever the value.
pub proof fn lemma_degenerate_normalize(min: (int, int), max: (int, int), v: (int, int))
    requires
        q_eq(min, max),
    ensures
        q_norm(min, max, v) == (0int, 1int),
        q_eq(q_norm(min, max, v), (0int, 1int)),
{
}

/// Boundary law, lower half: normalizing a scale's own lower bound yields
/// exactly zero.
pub proof fn lemma_normalize_min(min: (int, int), max: (int, int))
    requires
        0 < min.1,
        0 < max.1,
    ensures
        q_eq(q_norm(min, max, min), (0int, 1int)),
{
    if !q_eq(min, max) {
        let rs: int = max.1 * min.1;
        assert((min.0 * min.1 - min.0 * min.1) * rs == 0) by (nonlinear_arith);
        assert(-((min.0 * min.1 - min.0 * min.1) * rs) == 0);
    }
}

/// Boundary law, upper half: on a non-degenerate scale, normalizing the
/// scale's own upper bound yields exactly one.
pub proof fn lemma_normalize_max(min: (int, int), max: (int, int))
    requires
        0 < min.1,
        0 < max.1,
        !q_eq(min, max),
    ensures
        q_eq(q_norm(min, max, max), (1int, 1int)),
{
    let f = q_norm(min, max, max);
    let rn: int = max.0 * min.1 - min.0 * max.1;
    let rs: int = max.1 * min.1;
    assert(rn * rs == rs * rn) by (nonlinear_arith);
    assert(q_eq(f, (1int, 1int)));
}

/// Round-trip law: on a non-degenerate scale, interpolating the fraction that
/// normalize produced yields exactly the value that was normalized.
pub proof fn lemma_round_trip(min: (int, int), max: (int, int), v: (int, int))
    requires
        0 < min.1,
        0 < max.1,
        0 < v.1,
        !q_eq(min, max),
    ensures
        q_eq(q_lerp(min, max, q_norm(min, max, v)), v),
{
    let a: int = min.0;
    let b: int = min.1;
    let c: int = max.0;
    let d: int = max.1;
    let p: int = v.0;
    let q: int = v.1;
    let dn: int = p * b - a * q;
    let de: int = q * b;
    let rn: int = c * b - a * d;
    let rs: int = d * b;
    let g1: int = rn * rs;
    let s0: int = a * de + dn * b;
    let f = q_norm(min, max, v);
    let l = q_lerp(min, max, f);
    assert((de * rn) * rs == de * g1) by (nonlinear_arith)
        requires
            g1 == rn * rs,
    ;
    assert((dn * rs) * rn == dn * g1) by (nonlinear_arith)
        requires
            g1 == rn * rs,
    ;
    assert(a * (de * g1) + (dn * g1) * b == s0 * g1) by (nonlinear_arith)
        requires
            s0 == a * de + dn * b,
    ;
    assert(s0 == p * (b * b)) by (nonlinear_arith)
        requires
            s0 == a * de + dn * b,
            de == q * b,
            dn == p * b - a * q,
    ;
    assert((s0 * g1) * q == p * (b * (de * g1))) by (nonlinear_arith)
        requires
            s0 == p * (b * b),
            de == q * b,
    ;
    if 0 <= rn {
        assert(f.0 == dn * rs && f.1 == de * rn);
        assert(l.0 == a * (f.1 * rs) + (f.0 * rn) * b);
        assert(l.1 == b * (f.1 * rs));
        assert(l.0 == s0 * g1);
        assert(l.0 * q == p * l.1);
    } else {
        assert(f.0 == -(dn * rs) && f.1 == -(de * rn));
        assert(l.0 == a * (f.1 * rs) + (f.0 * rn) * b);
        assert(l.1 == b * (f.1 * rs));
        assert((-(de * rn)) * rs == -(de * g1)) by (nonlinear_arith)
            requires
                g1 == rn * rs,
        ;
        assert((-(dn * rs)) * rn == -(dn * g1)) by (nonlinear_arith)
            requires
                g1 == rn * rs,
        ;
        assert(a * (-(de * g1)) + (-(dn * g1)) * b == -(s0 * g1)) by (nonlinear_arith)
            requires
                s0 == a * de + dn * b,
        ;
        assert(l.0 == -(s0 * g1));
        assert((-(s0 * g1)) * q == p * (b * (-(de * g1)))) by (nonlinear_arith)
            requires
                s0 == p * (b * b),
                de == q * b,
        ;
        assert(l.0 * q == p * l.1);
    }
    assert(q_eq(l, v));
}

/// Linearity law: interpolating the average of two fractions yields the
/// midpoint, by the unit algebra, of the two interpolations.
pub proof fn lemma_interpolate_linear(
    min: (int, int),
    max: (int, int),
    t1: (int, int),
    t2: (int, int),
)
    requires
        0 < min.1,
        0 < max.1,
        0 < t1.1,
        0 < t2.1,
    ensures
        q_eq(
            q_lerp(min, max, q_mul((1int, 2int), q_add(t1, t2))),
            q_mul((1int, 2int), q_add(q_lerp(min, max, t1), q_lerp(min, max, t2))),
        ),
{
    let a: int = min.0;
    let b: int = min.1;
    let u: int = t1.0;
    let e: int = t1.1;
    let w: int = t2.0;
    let g: int = t2.1;
    let rn: int = max.0 * min.1 - min.0 * max.1;
    let rs: int = max.1 * min.1;
    let ta = q_mul((1int, 2int), q_add(t1, t2));
    let l = q_lerp(min, max, ta);
    let l1 = q_lerp(min, max, t1);
    let l2 = q_lerp(min, max, t2);
    let mid = q_mul((1int, 2int), q_add(l1, l2));
    let m1: int = a * (e * rs) + (u * rn) * b;
    let m2: int = a * (g * rs) + (w * rn) * b;
    let n1: int = b * (e * rs);
    let n2: int = b * (g * rs);
    let lv: int = 2 * (a * ((e * g) * rs)) + ((u * g + w * e) * rn) * b;
    let l1v: int = b * ((2 * (e * g)) * rs);
    let x: int = b * rs;
    assert(ta.0 == u * g + w * e);
    assert(ta.1 == 2 * (e * g));
    assert(a * ((2 * (e * g)) * rs) == 2 * (a * ((e * g) * rs))) by (nonlinear_arith);
    assert(l.0 == lv);
    assert(l.1 == l1v);
    assert(l1.0 == m1 && l1.1 == n1 && l2.0 == m2 && l2.1 == n2);
    assert(mid.0 == m1 * n2 + m2 * n1);
    assert(mid.1 == 2 * (n1 * n2));
    assert(m1 * n2 == x * (g * m1)) by (nonlinear_arith)
        requires
            n2 == b * (g * rs),
            x == b * rs,
    ;
    assert(m2 * n1 == x * (e * m2)) by (nonlinear_arith)
        requires
            n1 == b * (e * rs),
            x == b * rs,
    ;
    assert(x * (g * m1) + x * (e * m2) == x * (g * m1 + e * m2)) by (nonlinear_arith);
    let q1: int = a * (e * rs);
    let q2: int = (u * rn) * b;
    let q3: int = a * (g * rs);
    let q4: int = (w * rn) * b;
    assert(g * m1 == g * q1 + g * q2) by (nonlinear_arith)
        requires
            m1 == q1 + q2,
    ;
    assert(g * q1 == a * ((e * g) * rs)) by (nonlinear_arith)
        requires
            q1 == a * (e * rs),
    ;
    assert(g * q2 == ((u * g) * rn) * b) by (nonlinear_arith)
        requires
            q2 == (u * rn) * b,
    ;
    assert(g * m1 == a * ((e * g) * rs) + ((u * g) * rn) * b);
    assert(e * m2 == e * q3 + e * q4) by (nonlinear_arith)
        requires
            m2 == q3 + q4,
    ;
    assert(e * q3 == a * ((g * e) * rs)) by (nonlinear_arith)
        requires
            q3 == a * (g * rs),
    ;
    assert(e * q4 == ((w * e) * rn) * b) by (nonlinear_arith)
        requires
            q4 == (w * rn) * b,
    ;
    assert(e * m2 == a * ((g * e) * rs) + ((w * e) * rn) * b);
    assert(a * ((g * e) * rs) == a * ((e * g) * rs)) by (nonlinear_arith);
    assert(((u * g) * rn) * b + ((w * e) * rn) * b == ((u * g + w * e) * rn) * b)
        by (nonlinear_arith);
    assert(g * m1 + e * m2 == lv);
    assert(mid.0 == x * lv);
    assert(2 * (n1 * n2) == x * l1v) by (nonlinear_arith)
        requires
            n1 == b * (e * rs),
            n2 == b * (g * rs),
            x == b * rs,
            l1v == b * ((2 * (e * g)) * rs),
    ;
    assert(mid.1 == x * l1v);
    assert(lv * (x * l1v) == (x * lv) * l1v) by (nonlinear_arith);
    assert(l.0 * mid.1 == mid.0 * l.1);
    assert(q_eq(l, mid));
}

/// Converter identity law: when the source and destination bounds are equal
/// in value pair for pair, converting a value yields that value again, read
/// on the destination scale.
pub proof fn lemma_converter_identity(
    smin: (int, int),
    smax: (int, int),
    dmin: (int, int),
    dmax: (int, int),
    v: (int, int),
)
    requires
        0 < smin.1,
        0 < smax.1,
        0 < dmin.1,
        0 < dmax.1,
        0 < v.1,
        q_eq(smin, dmin),
        q_eq(smax, dmax),
        !q_eq(smin, smax),
    ensures
        q_eq(q_lerp(dmin, dmax, q_norm(smin, smax, v)), v),
{
    let a: int = smin.0;
    let b: int = smin.1;
    let c: int = smax.0;
    let d: int = smax.1;
    let a2: int = dmin.0;
    let b2: int = dmin.1;
    let c2: int = dmax.0;
    let d2: int = dmax.1;
    let p: int = v.0;
    let q: int = v.1;
    let dn: int = p * b - a * q;
    let de: int = q * b;
    let rn: int = c * b - a * d;
    let rs: int = d * b;
    let rn2: int = c2 * b2 - a2 * d2;
    let rs2: int = d2 * b2;
    let z: int = b * d;
    let f = q_norm(smin, smax, v);
    let l = q_lerp(dmin, dmax, f);
    // the two ranges agree once each is brought over the other's denominators
    let p1: int = c2 * b2;
    let p2: int = a2 * d2;
    let h: int = rn * rs2;
    assert(rn2 * z == p1 * z - p2 * z) by (nonlinear_arith)
        requires
            rn2 == p1 - p2,
    ;
    assert(p1 * z == (c2 * d) * (b2 * b)) by (nonlinear_arith)
        requires
            p1 == c2 * b2,
            z == b * d,
    ;
    assert(p2 * z == (a2 * b) * (d2 * d)) by (nonlinear_arith)
        requires
            p2 == a2 * d2,
            z == b * d,
    ;
    assert(c * d2 == c2 * d);
    assert(a * b2 == a2 * b);
    assert((c * d2) * (b2 * b) == (c * b) * (b2 * d2)) by (nonlinear_arith);
    assert((a * b2) * (d2 * d) == (a * d) * (b2 * d2)) by (nonlinear_arith);
    assert((c * b) * (b2 * d2) - (a * d) * (b2 * d2) == rn * (b2 * d2)) by (nonlinear_arith)
        requires
            rn == c * b - a * d,
    ;
    assert(rn * (b2 * d2) == h) by (nonlinear_arith)
        requires
            h == rn * rs2,
            rs2 == d2 * b2,
    ;
    assert(rn2 * z == h);
    // the unsigned halves of the interpolation, brought to one normal form
    let t1: int = a2 * ((de * rn) * rs2);
    let t2: int = ((dn * rs) * rn2) * b2;
    let l1v: int = b2 * ((de * rn) * rs2);
    let k2: int = b2 * d;
    let u1: int = a * de;
    let u2: int = dn * b;
    let s0: int = a * de + dn * b;
    assert(s0 == p * (b * b)) by (nonlinear_arith)
        requires
            s0 == a * de + dn * b,
            de == q * b,
            dn == p * b - a * q,
    ;
    assert(t1 * z == h * (de * (a2 * z))) by (nonlinear_arith)
        requires
            t1 == a2 * ((de * rn) * rs2),
            h == rn * rs2,
    ;
    assert(a2 * z == (a2 * b) * d) by (nonlinear_arith)
        requires
            z == b * d,
    ;
    assert(a2 * z == (a * b2) * d);
    assert(de * ((a * b2) * d) == k2 * u1) by (nonlinear_arith)
        requires
            k2 == b2 * d,
            u1 == a * de,
    ;
    assert(t1 * z == h * (k2 * u1));
    assert(t2 * z == ((dn * rs) * b2) * (rn2 * z)) by (nonlinear_arith)
        requires
            t2 == ((dn * rs) * rn2) * b2,
    ;
    assert(t2 * z == ((dn * rs) * b2) * h);
    assert(((dn * rs) * b2) * h == h * (k2 * u2)) by (nonlinear_arith)
        requires
            rs == d * b,
            k2 == b2 * d,
            u2 == dn * b,
    ;
    assert(t2 * z == h * (k2 * u2));
    assert((t1 + t2) * z == t1 * z + t2 * z) by (nonlinear_arith);
    assert(h * (k2 * u1) + h * (k2 * u2) == h * (k2 * s0)) by (nonlinear_arith)
        requires
            s0 == u1 + u2,
    ;
    assert((t1 + t2) * z == h * (k2 * s0));
    let l1z: int = l1v * z;
    let y2: int = (de * rn) * rs2;
    assert(l1z == y2 * (b2 * z)) by (nonlinear_arith)
        requires
            l1z == (b2 * y2) * z,
    ;
    assert(b2 * z == k2 * b) by (nonlinear_arith)
        requires
            z == b * d,
            k2 == b2 * d,
    ;
    assert(y2 * (k2 * b) == h * (k2 * (de * b))) by (nonlinear_arith)
        requires
            y2 == (de * rn) * rs2,
            h == rn * rs2,
    ;
    assert(l1z == h * (k2 * (de * b)));
    assert((h * (k2 * s0)) * q == p * (h * (k2 * (de * b)))) by (nonlinear_arith)
        requires
            s0 == p * (b * b),
            de == q * b,
    ;
    assert(((t1 + t2) * q) * z == ((t1 + t2) * z) * q) by (nonlinear_arith);
    assert((p * l1v) * z == p * (l1v * z)) by (nonlinear_arith);
    assert(((t1 + t2) * q) * z == (p * l1v) * z);
    let x1: int = (t1 + t2) * q;
    let y1: int = p * l1v;
    assert(0 < z) by (nonlinear_arith)
        requires
            z == b * d,
            0 < b,
            0 < d,
    ;
    assert(x1 == y1) by (nonlinear_arith)
        requires
            x1 * z == y1 * z,
            0 < z,
    ;
    if 0 <= rn {
        assert(f.0 == dn * rs && f.1 == de * rn);
        assert(l.0 == t1 + t2);
        assert(l.1 == l1v);
        assert(l.0 * q == p * l.1);
    } else {
        assert(f.0 == -(dn * rs) && f.1 == -(de * rn));
        assert((-(de * rn)) * rs2 == -((de * rn) * rs2)) by (nonlinear_arith);
        assert(a2 * (-((de * rn) * rs2)) == -t1) by (nonlinear_arith)
            requires
                t1 == a2 * ((de * rn) * rs2),
        ;
        assert((-(dn * rs)) * rn2 == -((dn * rs) * rn2)) by (nonlinear_arith);
        assert((-((dn * rs) * rn2)) * b2 == -t2) by (nonlinear_arith)
            requires
                t2 == ((dn * rs) * rn2) * b2,
        ;
        assert(l.0 == -t1 + -t2);
        assert(b2 * (-((de * rn) * rs2)) == -l1v) by (nonlinear_arith)
            requires
                l1v == b2 * ((de * rn) * rs2),
        ;
        assert(l.1 == -l1v);
        assert((-t1 + -t2) * q == -((t1 + t2) * q)) by (nonlinear_arith);
        assert(p * (-l1v) == -(p * l1v)) by (nonlinear_arith);
        assert(l.0 * q == p * l.1);
    }
    assert(q_eq(l, v));
}

/// Degenerate-source law for converters: a converter whose source scale is
/// degenerate maps every input to the destination's lower bound.
pub proof fn lemma_degenerate_converter(
    smin: (int, int),
    smax: (int, int),
    dmin: (int, int),
    dmax: (int, int),
    v: (int, int),
)
    requires
        0 < dmin.1,
        0 < dmax.1,
        q_eq(smin, smax),
    ensures
        q_eq(q_lerp(dmin, dmax, q_norm(smin, smax, v)), dmin),
{
    let l = q_lerp(dmin, dmax, (0int, 1int));
    let rn2: int = dmax.0 * dmin.1 - dmin.0 * dmax.1;
    let rs2: int = dmax.1 * dmin.1;
    assert((dmin.0 * (1 * rs2) + (0 * rn2) * dmin.1) * dmin.1 == dmin.0 * (dmin.1 * (1 * rs2)))
        by (nonlinear_arith);
    assert(q_eq(l, dmin));
}

/// Round-trip law at a real scale: on a non-degenerate scale, interpolating
/// the fraction that `norm` produced yields exactly the value normalized.
pub proof fn lemma_scale_round_trip(s: LinearScale, v: ScaleUnit<Rational>)
    requires
        s.wf(),
        v.0.wf(),
        !s.degenerate(),
    ensures
        q_eq(q_lerp(s.min@, s.max@, q_norm(s.min@, s.max@, v.0@)), v.0@),
{
    lemma_round_trip(s.min@, s.max@, v.0@);
}

/// Round-trip law at a duration scale.
pub proof fn lemma_time_scale_round_trip(s: TimeScale, v: ScaleUnit<Time>)
    requires
        s.wf(),
        v.0.wf(),
        !s.degenerate(),
    ensures
        q_eq(q_lerp(s.min@, s.max@, q_norm(s.min@, s.max@, v.0@)), v.0@),
{
    lemma_round_trip(s.min@, s.max@, v.0@);
}

/// Boundary law at a real scale: the lower bound normalizes to exactly zero
/// and, off a degenerate range, the upper bound to exactly one.
pub proof fn lemma_scale_boundaries(s: LinearScale)
    requires
        s.wf(),
        !s.degenerate(),
    ensures
        q_eq(q_norm(s.min@, s.max@, s.min@), (0int, 1int)),
        q_eq(q_norm(s.min@, s.max@, s.max@), (1int, 1int)),
{
    lemma_normalize_min(s.min@, s.max@);
    lemma_normalize_max(s.min@, s.max@);
}

/// Boundary law at a duration scale.
pub proof fn lemma_time_scale_boundaries(s: TimeScale)
    requires
        s.wf(),
        !s.degenerate(),
    ensures
        q_eq(q_norm(s.min@, s.max@, s.min@), (0int, 1int)),
        q_eq(q_norm(s.min@, s.max@, s.max@), (1int, 1int)),
{
    lemma_normalize_min(s.min@, s.max@);
    lemma_normalize_max(s.min@, s.max@);
}

/// Converter identity law at a converter: when its two scales agree bound for
/// bound in value, the converter re-expresses each input unchanged.
pub proof fn lemma_converter_is_identity(c: Converter, v: ScaleUnit<Rational>)
    requires
        c.wf(),
        v.0.wf(),
        q_eq(c.src.min@, c.dst.min@),
        q_eq(c.src.max@, c.dst.max@),
        !c.src.degenerate(),
    ensures
        q_eq(q_lerp(c.dst.min@, c.dst.max@, c.spec_fraction(v)), v.0@),
{
    lemma_converter_identity(c.src.min@, c.src.max@, c.dst.min@, c.dst.max@, v.0@);
}

/// Degenerate-source law at a converter: a converter whose source scale is
/// degenerate maps every input to its destination's lower bound.
pub proof fn lemma_converter_degenerate_source(c: Converter, v: ScaleUnit<Rational>)
    requires
        c.wf(),
        v.0.wf(),
        c.src.degenerate(),
    ensures
        q_eq(q_lerp(c.dst.min@, c.dst.max@, c.spec_fraction(v)), c.dst.min@),
{
    lemma_degenerate_converter(c.src.min@, c.src.max@, c.dst.min@, c.dst.max@, v.0@);
}

} // verus!

use linear_scale::add;
use linear_scale::linear_converter_test;
use linear_scale::LinearScale;
use linear_scale::Rational;
use linear_scale::Scale;
use linear_scale::ScaleUnit;
use linear_scale::Time;
use linear_scale::TimeScale;

fn real_scale(min_num: i128, max_num: i128) -> LinearScale {
    LinearScale::new(Rational::new(min_num, 1), Rational::new(max_num, 1))
}

fn time_scale(min_secs: u32, max_secs: u32) -> TimeScale {
    TimeScale::new(Time::from_secs(min_secs), Time::from_secs(max_secs))
}

#[test]
fn test() {
    let _num_scale = real_scale(0, 10);
    let _time_scale = time_scale(0, 10);
}

#[test]
fn normalize_real_scale() {
    let s = real_scale(0, 10);
    let f = s.norm(ScaleUnit(Rational::new(5, 2)));
    assert!(f.equals(&Rational::new(1, 4)));
}

#[test]
fn interpolate_time_scale() {
    let s = time_scale(0, 10);
    let r = s.lerp(Rational::new(1, 4));
    assert!(r.0.equals(&Time::new(Rational::new(5, 2))));
}

#[test]
fn converter_real_to_time() {
    let conv = linear_converter_test(real_scale(0, 10), time_scale(0, 10));
    let r = conv.apply(ScaleUnit(Rational::new(5, 2)));
    assert!(r.0.equals(&Time::new(Rational::new(5, 2))));
}

#[test]
fn converter_shifted_destination() {
    let conv = linear_converter_test(real_scale(0, 10), time_scale(5, 15));
    let low = conv.apply(ScaleUnit(Rational::new(0, 1)));
    assert!(low.0.equals(&Time::from_secs(5)));
    let high = conv.apply(ScaleUnit(Rational::new(10, 1)));
    assert!(high.0.equals(&Time::from_secs(15)));
}

#[test]
fn converter_acts_as_unit_re_expression() {
    let conv = linear_converter_test(real_scale(0, 10), time_scale(0, 10));
    let r = conv.apply(ScaleUnit(Rational::new(5, 1)));
    assert!(r.0.equals(&Time::from_secs(5)));
}

#[test]
fn degenerate_scale_normalizes_to_zero() {
    let s = real_scale(5, 5);
    let zero = Rational::zero();
    assert!(s.norm(ScaleUnit(Rational::new(0, 1))).equals(&zero));
    assert!(s.norm(ScaleUnit(Rational::new(5, 1))).equals(&zero));
    assert!(s.norm(ScaleUnit(Rational::new(-17, 3))).equals(&zero));
}

#[test]
fn degenerate_source_maps_to_destination_min() {
    let conv = linear_converter_test(real_scale(5, 5), time_scale(3, 9));
    let r = conv.apply(ScaleUnit(Rational::new(123, 7)));
    assert!(r.0.equals(&Time::from_secs(3)));
}

#[test]
fn boundary_fractions() {
    let s = real_scale(2, 8);
    assert!(s.norm(ScaleUnit(Rational::new(2, 1))).equals(&Rational::zero()));
    assert!(s.norm(ScaleUnit(Rational::new(8, 1))).equals(&Rational::new(1, 1)));
    let ts = time_scale(2, 8);
    assert!(ts.norm(ScaleUnit(Time::from_secs(2))).equals(&Rational::zero()));
    assert!(ts.norm(ScaleUnit(Time::from_secs(8))).equals(&Rational::new(1, 1)));
}

#[test]
fn round_trip_is_exact() {
    let s = real_scale(1, 5);
    let v = Rational::new(7, 3);
    let f = s.norm(ScaleUnit(v));
    let back = s.lerp(f);
    assert!(back.0.equals(&v));
    let outside = Rational::new(9, 1);
    let back_out = s.lerp(s.norm(ScaleUnit(outside)));
    assert!(back_out.0.equals(&outside));
}

#[test]
fn interpolation_is_linear() {
    let s = real_scale(0, 10);
    let t1 = Rational::new(1, 2);
    let t2 = Rational::new(1, 3);
    let half = Rational::new(1, 2);
    let avg = ScaleUnit(t1).add(ScaleUnit(t2)).scale_by(half).0;
    let at_avg = s.lerp(avg);
    let midpoint = s.lerp(t1).add(s.lerp(t2)).scale_by(half);
    assert!(at_avg.0.equals(&midpoint.0));
}

#[test]
fn unclamped_extrapolation() {
    let s = real_scale(0, 10);
    assert!(s.norm(ScaleUnit(Rational::new(15, 1))).equals(&Rational::new(3, 2)));
    assert!(s.lerp(Rational::new(2, 1)).0.equals(&Rational::new(20, 1)));
    assert!(s.lerp(Rational::new(-1, 2)).0.equals(&Rational::new(-5, 1)));
}

#[test]
fn inverted_range_reverses_direction() {
    let s = real_scale(10, 0);
    assert!(s.norm(ScaleUnit(Rational::new(5, 2))).equals(&Rational::new(3, 4)));
    assert!(s.lerp(Rational::new(1, 4)).0.equals(&Rational::new(15, 2)));
}

#[test]
fn unit_arithmetic_real() {
    let a = ScaleUnit(Rational::new(3, 2));
    let b = ScaleUnit(Rational::new(1, 3));
    assert!(a.add(b).0.equals(&Rational::new(11, 6)));
    assert!(a.subtract(b).0.equals(&Rational::new(7, 6)));
    assert!(a.ratio(b).equals(&Rational::new(9, 2)));
    assert!(b.scale_by(Rational::new(3, 1)).0.equals(&Rational::new(1, 1)));
}

#[test]
fn unit_arithmetic_time() {
    let a = ScaleUnit(Time::new(Rational::new(9, 2)));
    let b = ScaleUnit(Time::new(Rational::new(3, 2)));
    assert!(a.add(b).0.equals(&Time::from_secs(6)));
    assert!(a.subtract(b).0.equals(&Time::from_secs(3)));
    assert!(a.ratio(b).equals(&Rational::new(3, 1)));
    assert!(a.scale_by(Rational::new(2, 3)).0.equals(&Time::from_secs(3)));
}

#[test]
fn range_is_max_minus_min() {
    let s = real_scale(3, 10);
    assert!(s.range().0.equals(&Rational::new(7, 1)));
    let ts = time_scale(3, 10);
    assert!(ts.range().0.equals(&Time::from_secs(7)));
}

#[test]
fn value_equality_ignores_representation() {
    let a = Rational::new(5, 2);
    let b = Rational::new(10, 4);
    assert!(a.equals(&b));
    assert!(!a.equals(&Rational::new(5, 3)));
}

#[test]
fn scale_trait_bounds() {
    let s = real_scale(2, 9);
    assert!(Scale::min(&s).0.equals(&Rational::new(2, 1)));
    assert!(Scale::max(&s).0.equals(&Rational::new(9, 1)));
}

#[test]
fn add_counts() {
    assert_eq!(add(2, 3), 5);
    assert_eq!(add(0, 0), 0);
}

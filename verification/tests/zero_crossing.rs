use use_signal::reading::Reading;
use use_signal::zero_crossing::{crosses_zero, zero_crossing_count, zero_crossing_rate_parts};

fn reading(x: f64) -> Reading {
    if !x.is_finite() {
        return Reading::NonFinite;
    }
    let magnitude = (x.to_bits() & 0x7fff_ffff_ffff_ffff) as i64;
    Reading::Finite(if x < 0.0 { -magnitude } else { magnitude })
}

fn readings(xs: &[f64]) -> Vec<Reading> {
    xs.iter().map(|x| reading(*x)).collect()
}

fn rate(xs: &[f64]) -> Option<f64> {
    zero_crossing_rate_parts(&readings(xs)).map(|(count, intervals)| count as f64 / intervals as f64)
}

#[test]
fn detects_direct_crossings() {
    assert!(crosses_zero(reading(-1.0), reading(1.0)));
    assert!(crosses_zero(reading(1.0), reading(-1.0)));
    assert!(!crosses_zero(reading(-1.0), reading(0.0)));
    assert!(!crosses_zero(reading(0.0), reading(1.0)));
}

#[test]
fn counts_crossings_while_skipping_exact_zero_samples() {
    assert_eq!(zero_crossing_count(&readings(&[-1.0, 0.0, 1.0, 0.0, -1.0])), 2);
    assert_eq!(zero_crossing_count(&readings(&[1.0])), 0);
}

#[test]
fn computes_zero_crossing_rate() {
    assert_eq!(rate(&[-1.0, 0.0, 1.0, -1.0]), Some(2.0 / 3.0));
}

#[test]
fn rejects_invalid_rate_inputs() {
    assert_eq!(rate(&[]), None);
    assert_eq!(rate(&[1.0]), None);
    assert_eq!(rate(&[1.0, f64::NAN]), None);
}

#[test]
fn crossing_count_and_parts_of_the_documented_example() {
    let samples = readings(&[-1.0, 0.0, 1.0, -1.0]);
    assert_eq!(zero_crossing_count(&samples), 2);
    assert_eq!(zero_crossing_rate_parts(&samples), Some((2, 3)));
}

#[test]
fn inserted_zeros_leave_the_count_unchanged() {
    let base = readings(&[-1.0, 2.0, -3.0, 4.0]);
    let padded = readings(&[0.0, -1.0, 0.0, 0.0, 2.0, -3.0, 0.0, 4.0, 0.0]);
    assert_eq!(zero_crossing_count(&base), 3);
    assert_eq!(zero_crossing_count(&padded), 3);
}

#[test]
fn non_finite_samples_break_sign_continuity() {
    assert_eq!(zero_crossing_count(&readings(&[-1.0, f64::NAN, 1.0])), 0);
    assert_eq!(zero_crossing_count(&readings(&[-1.0, 1.0, f64::INFINITY, -1.0, 1.0])), 2);
    assert_eq!(zero_crossing_count(&readings(&[1.0, 0.0, f64::NEG_INFINITY, 0.0, -1.0])), 0);
}

#[test]
fn negative_zero_is_neutral_and_infinities_do_not_cross() {
    assert!(!crosses_zero(reading(-0.0), reading(1.0)));
    assert!(!crosses_zero(reading(f64::NEG_INFINITY), reading(f64::INFINITY)));
    assert_eq!(zero_crossing_count(&readings(&[1.0, -0.0, -2.0])), 1);
}

#[test]
fn pair_count_matches_crosses_zero() {
    let values = [-2.0, -0.0, 0.0, 3.0, f64::NAN];
    for a in values {
        for b in values {
            let expected = if crosses_zero(reading(a), reading(b)) { 1 } else { 0 };
            assert_eq!(zero_crossing_count(&[reading(a), reading(b)]), expected);
        }
    }
}

#[test]
fn rate_terms_are_bounded_by_the_intervals() {
    let samples = readings(&[1.0, -1.0, 1.0, -1.0, 1.0]);
    assert_eq!(zero_crossing_rate_parts(&samples), Some((4, 4)));
    assert_eq!(zero_crossing_count(&[]), 0);
}

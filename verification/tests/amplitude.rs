use use_signal::amplitude::{max_amplitude_index, min_amplitude_index, peak_amplitude_index, peak_to_peak_indices};
use use_signal::reading::{Reading, is_valid_signal};

fn reading(x: f64) -> Reading {
    if !x.is_finite() {
        return Reading::NonFinite;
    }
    let magnitude = (x.to_bits() & 0x7fff_ffff_ffff_ffff) as i64;
    Reading::Finite(if x < 0.0 { -magnitude } else { magnitude })
}

fn readings(xs: &[f64]) -> Vec<Reading> {
    xs.iter().map(|x| reading(*x)).collect()
}

fn peak_amplitude(samples: &[f64]) -> Option<f64> {
    peak_amplitude_index(&readings(samples)).map(|i| samples[i].abs())
}

fn peak_to_peak_amplitude(samples: &[f64]) -> Option<f64> {
    peak_to_peak_indices(&readings(samples)).map(|(lo, hi)| samples[hi] - samples[lo])
}

#[test]
fn rejects_empty_inputs() {
    assert_eq!(peak_amplitude(&[]), None);
    assert!(!is_valid_signal(&[]));
}

#[test]
fn rejects_non_finite_samples() {
    assert_eq!(peak_amplitude(&[0.0, f64::NAN]), None);
    assert!(!is_valid_signal(&readings(&[1.0, f64::INFINITY])));
}

#[test]
fn finds_the_summary_readings() {
    let samples = [-2.0, -0.5, 1.0, 3.0];
    let r = readings(&samples);

    assert_eq!(peak_amplitude(&samples), Some(3.0));
    assert_eq!(min_amplitude_index(&r).map(|i| samples[i]), Some(-2.0));
    assert_eq!(max_amplitude_index(&r).map(|i| samples[i]), Some(3.0));
    assert_eq!(peak_to_peak_amplitude(&samples), Some(5.0));
}

#[test]
fn single_values_are_their_own_extremes() {
    assert_eq!(peak_amplitude(&[-0.5]), Some(0.5));
    assert_eq!(peak_to_peak_amplitude(&[-0.5]), Some(0.0));
}

#[test]
fn first_extreme_wins_and_peak_is_an_extreme() {
    let samples = [-3.0, 1.0, 3.0, -3.0];
    let r = readings(&samples);
    assert_eq!(peak_amplitude_index(&r), Some(0));
    assert_eq!(min_amplitude_index(&r), Some(0));
    assert_eq!(max_amplitude_index(&r), Some(2));
    assert_eq!(peak_to_peak_indices(&r), Some((0, 2)));
    assert_eq!(peak_to_peak_indices(&[Reading::NonFinite]), None);
}

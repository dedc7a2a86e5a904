use use_signal::reading::Reading;
use use_signal::sample::{SampleError, sample_count, validate_sample_rate, validate_sample_value, validate_samples};

fn reading(x: f64) -> Reading {
    if !x.is_finite() {
        return Reading::NonFinite;
    }
    let magnitude = (x.to_bits() & 0x7fff_ffff_ffff_ffff) as i64;
    Reading::Finite(if x < 0.0 { -magnitude } else { magnitude })
}

fn readings(xs: &[f64]) -> Vec<Reading> {
    xs.iter().map(|x| reading(*x)).collect()
}

fn duration_seconds(count: usize, sample_rate_hz: f64) -> Result<f64, SampleError> {
    validate_sample_rate(reading(sample_rate_hz)).map(|()| count as f64 / sample_rate_hz)
}

#[test]
fn validates_finite_samples_and_counts_them() {
    let values = [-1.0, 0.0, 1.0];

    assert_eq!(validate_samples(&readings(&values)), Ok(()));
    assert_eq!(sample_count(&values), 3);
}

#[test]
fn accepts_empty_sample_slices() {
    assert_eq!(validate_samples(&[]), Ok(()));
    assert_eq!(sample_count::<f64>(&[]), 0);
    assert_eq!(duration_seconds(0, 48_000.0).unwrap(), 0.0);
}

#[test]
fn rejects_invalid_sample_values() {
    assert_eq!(validate_sample_value(reading(f64::NAN)), Err(SampleError::InvalidValue));
    assert_eq!(
        validate_samples(&readings(&[0.0, f64::INFINITY])),
        Err(SampleError::InvalidValue)
    );
}

#[test]
fn lib_rejects_invalid_sample_rates() {
    assert_eq!(duration_seconds(100, 0.0), Err(SampleError::InvalidSampleRate));
    assert_eq!(duration_seconds(100, f64::NAN), Err(SampleError::InvalidSampleRate));
}

#[test]
fn accepts_finite_values_and_positive_rates_only() {
    assert_eq!(validate_sample_value(reading(-0.25)), Ok(()));
    assert_eq!(validate_sample_value(reading(f64::NEG_INFINITY)), Err(SampleError::InvalidValue));
    assert_eq!(validate_sample_rate(reading(48_000.0)), Ok(()));
    assert_eq!(validate_sample_rate(reading(-1.0)), Err(SampleError::InvalidSampleRate));
    assert_eq!(validate_sample_rate(reading(-0.0)), Err(SampleError::InvalidSampleRate));
    assert_eq!(validate_sample_rate(reading(f64::INFINITY)), Err(SampleError::InvalidSampleRate));
    assert_eq!(duration_seconds(480, 48_000.0).unwrap(), 0.01);
}

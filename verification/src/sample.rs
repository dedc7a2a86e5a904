//! Sample validation and counting.
use vstd::prelude::*;
use crate::reading::{Reading, all_finite, all_finite_readings, is_positive_reading};

verus! {

#[derive(Debug, Clone, Copy, PartialEq, Eq, Structural)]
pub enum SampleError {
    InvalidValue,
    InvalidSampleRate,
}

/// Checks that a value may be a sample: it must be finite.
pub fn validate_sample_value(value: Reading) -> (r: Result<(), SampleError>)
    ensures
        r == if value.finite() {
            Ok::<(), SampleError>(())
        } else {
            Err(SampleError::InvalidValue)
        },
{
    match value {
        Reading::Finite(_) => Ok(()),
        Reading::NonFinite => Err(SampleError::InvalidValue),
    }
}

/// Checks that every sample of a signal is finite; an empty signal passes.
pub fn validate_samples(samples: &[Reading]) -> (r: Result<(), SampleError>)
    ensures
        r == if all_finite(samples@) {
            Ok::<(), SampleError>(())
        } else {
            Err(SampleError::InvalidValue)
        },
{
    if all_finite_readings(samples) {
        Ok(())
    } else {
        Err(SampleError::InvalidValue)
    }
}

/// The number of samples of a signal.
pub fn sample_count<T>(samples: &[T]) -> (n: usize)
    ensures
        n == samples@.len(),
{
    samples.len()
}

/// Checks a sample rate: it must be finite and strictly positive.
pub fn validate_sample_rate(sample_rate_hz: Reading) -> (r: Result<(), SampleError>)
    ensures
        r == if sample_rate_hz.is_positive() {
            Ok::<(), SampleError>(())
        } else {
            Err(SampleError::InvalidSampleRate)
        },
{
    if is_positive_reading(sample_rate_hz) {
        Ok(())
    } else {
        Err(SampleError::InvalidSampleRate)
    }
}

} // verus!

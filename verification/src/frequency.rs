//! Frequency validation: frequencies and sample rates are finite, strictly
//! positive values.
use vstd::prelude::*;
use crate::reading::{Reading, is_positive_reading};

verus! {

#[derive(Debug, Clone, Copy, PartialEq, Eq, Structural)]
pub enum FrequencyError {
    InvalidFrequency,
    InvalidSampleRate,
}

/// Checks that a value is finite and strictly positive, and reports `error`
/// otherwise.
pub fn validate_positive(value: Reading, error: FrequencyError) -> (r: Result<(), FrequencyError>)
    ensures
        r == if value.is_positive() {
            Ok::<(), FrequencyError>(())
        } else {
            Err(error)
        },
{
    if is_positive_reading(value) {
        Ok(())
    } else {
        Err(error)
    }
}

} // verus!

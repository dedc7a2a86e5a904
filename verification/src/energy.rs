//! Energy, power and decibel helpers. The library decides which inputs the
//! decibel conversions accept and in which order they are checked.
use vstd::prelude::*;
use crate::reading::{Reading, is_positive_reading};

verus! {

#[derive(Debug, Clone, Copy, PartialEq, Eq, Structural)]
pub enum EnergyError {
    InvalidPower,
    InvalidReferencePower,
    InvalidAmplitude,
    InvalidReferenceAmplitude,
}

/// Checks the inputs of a power ratio in decibels: the power first, then the
/// reference power, each finite and strictly positive.
pub fn validate_power_ratio(power: Reading, reference_power: Reading) -> (r: Result<
    (),
    EnergyError,
>)
    ensures
        r == if !power.is_positive() {
            Err(EnergyError::InvalidPower)
        } else if !reference_power.is_positive() {
            Err(EnergyError::InvalidReferencePower)
        } else {
            Ok::<(), EnergyError>(())
        },
{
    if !is_positive_reading(power) {
        return Err(EnergyError::InvalidPower);
    }
    if !is_positive_reading(reference_power) {
        return Err(EnergyError::InvalidReferencePower);
    }
    Ok(())
}

/// Checks the inputs of an amplitude ratio in decibels: the amplitude first,
/// then the reference amplitude, each finite and strictly positive.
pub fn validate_amplitude_ratio(amplitude: Reading, reference_amplitude: Reading) -> (r: Result<
    (),
    EnergyError,
>)
    ensures
        r == if !amplitude.is_positive() {
            Err(EnergyError::InvalidAmplitude)
        } else if !reference_amplitude.is_positive() {
            Err(EnergyError::InvalidReferenceAmplitude)
        } else {
            Ok::<(), EnergyError>(())
        },
{
    if !is_positive_reading(amplitude) {
        return Err(EnergyError::InvalidAmplitude);
    }
    if !is_positive_reading(reference_amplitude) {
        return Err(EnergyError::InvalidReferenceAmplitude);
    }
    Ok(())
}

} // verus!

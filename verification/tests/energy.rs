use use_signal::energy::{EnergyError, validate_amplitude_ratio, validate_power_ratio};
use use_signal::reading::{Reading, is_valid_signal};

fn reading(x: f64) -> Reading {
    if !x.is_finite() {
        return Reading::NonFinite;
    }
    let magnitude = (x.to_bits() & 0x7fff_ffff_ffff_ffff) as i64;
    Reading::Finite(if x < 0.0 { -magnitude } else { magnitude })
}

fn readings(xs: &[f64]) -> Vec<Reading> {
    xs.iter().map(|x| reading(*x)).collect()
}

#[test]
fn rejects_invalid_decibel_inputs() {
    assert_eq!(validate_power_ratio(reading(0.0), reading(1.0)), Err(EnergyError::InvalidPower));
    assert_eq!(
        validate_power_ratio(reading(1.0), reading(0.0)),
        Err(EnergyError::InvalidReferencePower)
    );
    assert_eq!(
        validate_amplitude_ratio(reading(0.0), reading(1.0)),
        Err(EnergyError::InvalidAmplitude)
    );
    assert_eq!(
        validate_amplitude_ratio(reading(1.0), reading(f64::INFINITY)),
        Err(EnergyError::InvalidReferenceAmplitude)
    );
}

#[test]
fn rejects_empty_and_invalid_samples() {
    assert!(!is_valid_signal(&readings(&[])));
    assert!(!is_valid_signal(&readings(&[1.0, f64::NAN])));
}

#[test]
fn checks_the_value_before_the_reference() {
    assert_eq!(
        validate_power_ratio(reading(f64::NAN), reading(-1.0)),
        Err(EnergyError::InvalidPower)
    );
    assert_eq!(
        validate_amplitude_ratio(reading(-2.0), Reading::NonFinite),
        Err(EnergyError::InvalidAmplitude)
    );
    assert_eq!(validate_power_ratio(reading(10.0), reading(1.0)), Ok(()));
    assert_eq!(validate_amplitude_ratio(reading(2.0), reading(1.0)), Ok(()));
    assert!(is_valid_signal(&readings(&[1.0, -1.0, 1.0, -1.0])));
}

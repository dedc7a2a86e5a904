use use_signal::reading::Reading;
use use_signal::window::{WindowError, WindowShape, validate_window_input, window_shape};

fn reading(x: f64) -> Reading {
    if !x.is_finite() {
        return Reading::NonFinite;
    }
    let magnitude = (x.to_bits() & 0x7fff_ffff_ffff_ffff) as i64;
    Reading::Finite(if x < 0.0 { -magnitude } else { magnitude })
}

fn readings(xs: &[f64]) -> Vec<Reading> {
    xs.iter().map(|x| reading(*x)).collect()
}

#[test]
fn rejects_empty_windows() {
    assert_eq!(window_shape(0), Err(WindowError::InvalidLength));
    assert_eq!(validate_window_input(&[]), Err(WindowError::InvalidLength));
}

#[test]
fn lib_rejects_non_finite_samples() {
    assert_eq!(
        validate_window_input(&readings(&[1.0, f64::NAN])),
        Err(WindowError::InvalidSample)
    );
}

#[test]
fn single_point_and_longer_windows_have_their_own_shapes() {
    assert_eq!(window_shape(1), Ok(WindowShape::SinglePoint));
    assert_eq!(validate_window_input(&readings(&[2.0])), Ok(WindowShape::SinglePoint));
    assert_eq!(window_shape(4), Ok(WindowShape::Points { denominator: 3 }));
    assert_eq!(
        validate_window_input(&readings(&[1.0, 2.0, 3.0])),
        Ok(WindowShape::Points { denominator: 2 })
    );
    assert_eq!(
        validate_window_input(&[Reading::NonFinite]),
        Err(WindowError::InvalidSample)
    );
}

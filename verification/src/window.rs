//! Windowing: rectangular, Hann and Hamming windows. The library decides
//! which lengths and signals are accepted and the shape of the window grid.
use vstd::prelude::*;
use crate::reading::{Reading, all_finite, all_finite_readings};

verus! {

#[derive(Debug, Clone, Copy, PartialEq, Eq, Structural)]
pub enum WindowKind {
    Rectangular,
    Hann,
    Hamming,
}

#[derive(Debug, Clone, Copy, PartialEq, Eq, Structural)]
pub enum WindowError {
    InvalidLength,
    InvalidSample,
}

/// The grid of a window of a given length.
#[derive(Debug, Clone, Copy, PartialEq, Eq, Structural)]
pub enum WindowShape {
    /// A window of one point, whose single coefficient is one.
    SinglePoint,
    /// A window of `denominator + 1` points, the point at `index` standing at
    /// the angle `2 * pi * index / denominator`.
    Points { denominator: usize },
}

/// The shape of a window of `len` points: no window has zero points, one point
/// is a special case, and longer windows span their points over one period.
pub open spec fn shape_of(len: nat) -> Result<WindowShape, WindowError> {
    if len == 0 {
        Err(WindowError::InvalidLength)
    } else if len == 1 {
        Ok(WindowShape::SinglePoint)
    } else {
        Ok(WindowShape::Points { denominator: (len - 1) as usize })
    }
}

/// The shape of a window of `len` points.
pub fn window_shape(len: usize) -> (r: Result<WindowShape, WindowError>)
    ensures
        r == shape_of(len as nat),
{
    if len == 0 {
        return Err(WindowError::InvalidLength);
    }
    if len == 1 {
        return Ok(WindowShape::SinglePoint);
    }
    Ok(WindowShape::Points { denominator: len - 1 })
}

/// Checks a signal before windowing it: a non-finite reading is refused
/// first, then the length, as for `window_shape`.
pub fn validate_window_input(samples: &[Reading]) -> (r: Result<WindowShape, WindowError>)
    ensures
        !all_finite(samples@) ==> r == Err::<WindowShape, WindowError>(WindowError::InvalidSample),
        all_finite(samples@) ==> r == shape_of(samples@.len()),
{
    if !all_finite_readings(samples) {
        return Err(WindowError::InvalidSample);
    }
    window_shape(samples.len())
}

/// The number of points of a window shape.
pub open spec fn point_count(shape: WindowShape) -> int {
    match shape {
        WindowShape::SinglePoint => 1,
        WindowShape::Points { denominator } => denominator + 1,
    }
}

/// A window of `len >= 1` points has exactly `len` points, one coefficient per
/// sample; windows of two or more points span them over `len - 1` intervals.
pub proof fn lemma_window_has_len_points(len: nat)
    requires
        len <= usize::MAX,
    ensures
        len == 0 <==> shape_of(len) is Err,
        shape_of(len) matches Ok(shape) ==> point_count(shape) == len,
        len >= 2 ==> (shape_of(len) matches Ok(WindowShape::Points { denominator })
            && denominator + 1 == len),
{
}

} // verus!

//! Normalization: peak normalization, mapping into a target range, and
//! removal of the DC offset. The library decides which inputs are accepted
//! and which readings the floating-point layer scales by.
use vstd::prelude::*;
use crate::reading::{Reading, all_finite, all_finite_readings, valid_signal};
use crate::amplitude::{is_first_min, is_first_max, is_first_peak, min_index, max_index, peak_index, key_of};

verus! {

#[derive(Debug, Clone, Copy, PartialEq, Eq, Structural)]
pub enum NormalizeError {
    EmptySamples,
    InvalidSample,
    InvalidRange,
}

/// The verdict on the samples: an empty signal is refused first, then a signal
/// with a non-finite reading.
pub open spec fn samples_check(s: Seq<Reading>) -> Result<(), NormalizeError> {
    if s.len() == 0 {
        Err(NormalizeError::EmptySamples)
    } else if !all_finite(s) {
        Err(NormalizeError::InvalidSample)
    } else {
        Ok(())
    }
}

/// A target range: both ends finite, the lower end strictly below the upper.
pub open spec fn valid_target(min: Reading, max: Reading) -> bool {
    min.finite() && max.finite() && min.key() < max.key()
}

/// Every reading of the signal has the same value.
pub open spec fn constant_signal(s: Seq<Reading>) -> bool {
    forall|i: int, j: int| 0 <= i < s.len() && 0 <= j < s.len() ==> s[i].key() == s[j].key()
}

/// Every reading of the signal is an exact zero.
pub open spec fn silent_signal(s: Seq<Reading>) -> bool {
    forall|i: int| 0 <= i < s.len() ==> #[trigger] s[i].key() == 0
}

/// How a range normalization maps the signal.
#[derive(Debug, Clone, Copy, PartialEq, Eq, Structural)]
pub enum RangePlan {
    /// The signal has no spread: every sample maps to the target midpoint.
    Constant,
    /// Each sample maps linearly from `[samples[source_min], samples[source_max]]`
    /// onto the target range.
    Rescale { source_min: usize, source_max: usize },
}

/// How a peak normalization maps the signal.
#[derive(Debug, Clone, Copy, PartialEq, Eq, Structural)]
pub enum PeakPlan {
    /// The peak is zero: the signal is returned as it is.
    Unchanged,
    /// Each sample is divided by the magnitude of `samples[peak]`.
    DivideByPeak { peak: usize },
}

/// Checks that the samples are present and finite.
pub fn validated_samples(samples: &[Reading]) -> (r: Result<(), NormalizeError>)
    ensures
        r == samples_check(samples@),
{
    if samples.len() == 0 {
        return Err(NormalizeError::EmptySamples);
    }
    if !all_finite_readings(samples) {
        return Err(NormalizeError::InvalidSample);
    }
    Ok(())
}

/// The positions of the first smallest and the first largest reading of a
/// non-empty signal.
pub fn sample_min_max(samples: &[Reading]) -> (r: (usize, usize))
    requires
        samples@.len() > 0,
    ensures
        is_first_min(samples@, r.0 as int),
        is_first_max(samples@, r.1 as int),
{
    (min_index(samples), max_index(samples))
}

/// Decides how to map the signal into the target range `[min, max]`: the
/// samples are checked first, then the range; a signal without spread maps to
/// the midpoint, any other is rescaled between its minimum and maximum.
pub fn normalize_range_plan(samples: &[Reading], min: Reading, max: Reading) -> (r: Result<
    RangePlan,
    NormalizeError,
>)
    ensures
        samples_check(samples@) is Err ==> r == Err::<RangePlan, NormalizeError>(
            samples_check(samples@)->Err_0,
        ),
        samples_check(samples@) is Ok && !valid_target(min, max) ==> r == Err::<
            RangePlan,
            NormalizeError,
        >(NormalizeError::InvalidRange),
        samples_check(samples@) is Ok && valid_target(min, max) ==> r is Ok,
        valid_signal(samples@) && min.finite() && max.finite() && min.key() < max.key() ==> r is Ok,
        r == Err::<RangePlan, NormalizeError>(NormalizeError::InvalidRange) ==> !(min.finite()
            && max.finite() && min.key() < max.key()),
        r == Ok::<RangePlan, NormalizeError>(RangePlan::Constant) <==> (valid_signal(samples@)
            && valid_target(min, max) && constant_signal(samples@)),
        r matches Ok(RangePlan::Rescale { source_min, source_max }) ==> {
            &&& is_first_min(samples@, source_min as int)
            &&& is_first_max(samples@, source_max as int)
            &&& samples@[source_min as int].key() < samples@[source_max as int].key()
        },
{
    validated_samples(samples)?;
    let valid_range = match (min, max) {
        (Reading::Finite(lo), Reading::Finite(hi)) => lo < hi,
        _ => false,
    };
    if !valid_range {
        return Err(NormalizeError::InvalidRange);
    }
    let (source_min, source_max) = sample_min_max(samples);
    if key_of(samples[source_min]) == key_of(samples[source_max]) {
        proof {
            assert forall|i: int, j: int|
                0 <= i < samples@.len() && 0 <= j < samples@.len() implies samples@[i].key()
                == samples@[j].key() by {
                assert(samples@[source_min as int].key() <= samples@[i].key());
                assert(samples@[i].key() <= samples@[source_max as int].key());
                assert(samples@[source_min as int].key() <= samples@[j].key());
                assert(samples@[j].key() <= samples@[source_max as int].key());
            }
        }
        Ok(RangePlan::Constant)
    } else {
        Ok(RangePlan::Rescale { source_min, source_max })
    }
}

/// Decides how to normalize the signal by its peak: `None` for an empty
/// signal or a non-finite reading; an all-zero signal stays unchanged; any
/// other is divided by the magnitude of its first reading of largest magnitude.
pub fn normalize_peak_plan(samples: &[Reading]) -> (r: Option<PeakPlan>)
    ensures
        r is None <==> !valid_signal(samples@),
        r == Some(PeakPlan::Unchanged) <==> (valid_signal(samples@) && silent_signal(samples@)),
        r matches Some(PeakPlan::DivideByPeak { peak }) ==> {
            &&& is_first_peak(samples@, peak as int)
            &&& samples@[peak as int].magnitude() > 0
        },
{
    if validated_samples(samples).is_err() {
        return None;
    }
    let peak = peak_index(samples);
    let magnitude = key_of(samples[peak]);
    if magnitude == 0 {
        proof {
            assert forall|i: int| 0 <= i < samples@.len() implies #[trigger] samples@[i].key()
                == 0 by {
                assert(samples@[i].magnitude() <= samples@[peak as int].magnitude());
            }
        }
        Some(PeakPlan::Unchanged)
    } else {
        proof {
            if silent_signal(samples@) {
                assert(samples@[peak as int].key() == 0);
            }
        }
        Some(PeakPlan::DivideByPeak { peak })
    }
}

/// Every finite, strictly increasing target range is accepted, whatever its
/// ends; only a non-finite end or ends out of order refuse it.
pub proof fn lemma_every_increasing_range_is_a_target(min: Reading, max: Reading)
    ensures
        (min.finite() && max.finite() && min.key() < max.key()) ==> valid_target(min, max),
        !min.finite() || !max.finite() || max.key() <= min.key() ==> !valid_target(min, max),
{
}

} // verus!

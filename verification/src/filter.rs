//! Filtering: a causal moving average and first-order low-pass and high-pass
//! filters. The library decides which inputs are accepted, and for the moving
//! average which readings enter and leave the running window at each step.
use vstd::prelude::*;
use crate::reading::{Reading, all_finite, all_finite_readings};

verus! {

#[derive(Debug, Clone, Copy, PartialEq, Eq, Structural)]
pub enum FilterError {
    EmptySamples,
    InvalidSample,
    InvalidWindowSize,
    InvalidAlpha,
}

/// The verdict on the samples of a filter: an empty signal is refused first,
/// then a signal with a non-finite reading.
pub open spec fn samples_check(s: Seq<Reading>) -> Result<(), FilterError> {
    if s.len() == 0 {
        Err(FilterError::EmptySamples)
    } else if !all_finite(s) {
        Err(FilterError::InvalidSample)
    } else {
        Ok(())
    }
}

/// The verdict on the inputs of the moving average: the samples first, then
/// the window size, which must be positive.
pub open spec fn moving_average_check(s: Seq<Reading>, window_size: nat) -> Result<
    (),
    FilterError,
> {
    if samples_check(s) is Err {
        samples_check(s)
    } else if window_size == 0 {
        Err(FilterError::InvalidWindowSize)
    } else {
        Ok(())
    }
}

/// The verdict on the inputs of a first-order filter: the samples first, then
/// the smoothing factor, which must be finite and within `[0, 1]`.
pub open spec fn first_order_check(s: Seq<Reading>, alpha_in_range: bool) -> Result<
    (),
    FilterError,
> {
    if samples_check(s) is Err {
        samples_check(s)
    } else if !alpha_in_range {
        Err(FilterError::InvalidAlpha)
    } else {
        Ok(())
    }
}

/// Checks that a filter's samples are present and finite.
pub fn validate_samples(samples: &[Reading]) -> (r: Result<(), FilterError>)
    ensures
        r == samples_check(samples@),
{
    if samples.len() == 0 {
        return Err(FilterError::EmptySamples);
    }
    if !all_finite_readings(samples) {
        return Err(FilterError::InvalidSample);
    }
    Ok(())
}

/// Checks the inputs of the moving average.
pub fn check_moving_average(samples: &[Reading], window_size: usize) -> (r: Result<
    (),
    FilterError,
>)
    ensures
        r == moving_average_check(samples@, window_size as nat),
{
    validate_samples(samples)?;
    if window_size == 0 {
        return Err(FilterError::InvalidWindowSize);
    }
    Ok(())
}

/// Checks the inputs of the first-order low-pass and high-pass filters;
/// `alpha_in_range` tells whether the smoothing factor is finite and within
/// `[0, 1]`.
pub fn check_first_order(samples: &[Reading], alpha_in_range: bool) -> (r: Result<
    (),
    FilterError,
>)
    ensures
        r == first_order_check(samples@, alpha_in_range),
{
    validate_samples(samples)?;
    if !alpha_in_range {
        return Err(FilterError::InvalidAlpha);
    }
    Ok(())
}

/// The reading that leaves the running window at step `index`: the one
/// `window_size` positions back, once there is one.
pub open spec fn step_leaving(index: int, window_size: int) -> Option<int> {
    if index >= window_size {
        Some(index - window_size)
    } else {
        None
    }
}

/// The number of readings in the window at step `index`.
pub open spec fn step_divisor(index: int, window_size: int) -> int {
    if index + 1 < window_size {
        index + 1
    } else {
        window_size
    }
}

/// One step of the causal moving average: the reading at `index` enters the
/// running sum, the reading at `leaving` (if any) leaves it, and the sum is
/// divided by `divisor`.
#[derive(Debug, Clone, Copy, PartialEq, Eq, Structural)]
pub struct MovingStep {
    pub leaving: Option<usize>,
    pub divisor: usize,
}

/// The step of the causal moving average at position `index`.
pub fn moving_average_step(index: usize, window_size: usize) -> (step: MovingStep)
    requires
        window_size > 0,
        index < usize::MAX,
    ensures
        step.divisor == step_divisor(index as int, window_size as int),
        step.divisor >= 1,
        match step.leaving {
            Some(j) => step_leaving(index as int, window_size as int) == Some(j as int),
            None => step_leaving(index as int, window_size as int) is None,
        },
{
    let leaving = if index >= window_size {
        Some(index - window_size)
    } else {
        None
    };
    let divisor = if index + 1 < window_size {
        index + 1
    } else {
        window_size
    };
    MovingStep { leaving, divisor }
}

/// The sum of a sequence of values.
pub open spec fn sum(s: Seq<int>) -> int
    decreases s.len(),
{
    if s.len() == 0 {
        0
    } else {
        sum(s.drop_last()) + s.last()
    }
}

/// The running sum after the first `n` steps of the moving average, each step
/// adding the entering value and taking away the leaving one.
pub open spec fn running_sum(s: Seq<int>, window_size: int, n: int) -> int
    decreases n,
{
    if n <= 0 {
        0
    } else {
        running_sum(s, window_size, n - 1) + s[n - 1] - match step_leaving(n - 1, window_size) {
            Some(j) => s[j],
            None => 0,
        }
    }
}

proof fn lemma_sum_first(s: Seq<int>)
    requires
        s.len() > 0,
    ensures
        sum(s) == s[0] + sum(s.drop_first()),
    decreases s.len(),
{
    if s.len() > 1 {
        lemma_sum_first(s.drop_last());
        assert(s.drop_last().drop_first() =~= s.drop_first().drop_last());
        assert(s.drop_last()[0] == s[0]);
        assert(s.drop_first().last() == s.last());
        assert(sum(s.drop_first()) == sum(s.drop_first().drop_last()) + s.drop_first().last());
    } else {
        assert(s.drop_last().len() == 0);
        assert(s.drop_first().len() == 0);
        assert(sum(s.drop_last()) == 0);
        assert(sum(s.drop_first()) == 0);
    }
}

proof fn lemma_sum_window_shift(s: Seq<int>, a: int, b: int)
    requires
        0 <= a < b < s.len(),
    ensures
        sum(s.subrange(a + 1, b + 1)) == sum(s.subrange(a, b)) + s[b] - s[a],
{
    let t = s.subrange(a, b + 1);
    assert(t.drop_last() =~= s.subrange(a, b));
    assert(t.drop_first() =~= s.subrange(a + 1, b + 1));
    lemma_sum_first(t);
}

/// The causal moving average is exact: after the step at `index`, the running
/// sum is the sum of the last `divisor` readings, those from
/// `index + 1 - divisor` to `index`.
pub proof fn lemma_running_sum_is_window_sum(s: Seq<int>, window_size: int, index: int)
    requires
        window_size > 0,
        0 <= index < s.len(),
    ensures
        running_sum(s, window_size, index + 1) == sum(
            s.subrange(index + 1 - step_divisor(index, window_size), index + 1),
        ),
    decreases index,
{
    if index == 0 {
        let t = s.subrange(0, 1);
        assert(t.drop_last().len() == 0);
        assert(sum(t.drop_last()) == 0);
        assert(sum(t) == s[0]);
        assert(step_divisor(0, window_size) == 1);
        assert(running_sum(s, window_size, 0) == 0);
        assert(step_leaving(0, window_size) is None);
        assert(running_sum(s, window_size, 1) == s[0]);
    } else {
        lemma_running_sum_is_window_sum(s, window_size, index - 1);
        if index < window_size {
            let t = s.subrange(0, index + 1);
            assert(t.drop_last() =~= s.subrange(0, index));
            assert(step_divisor(index - 1, window_size) == index);
            assert(step_divisor(index, window_size) == index + 1);
            assert(step_leaving(index, window_size) is None);
            assert(sum(t) == sum(s.subrange(0, index)) + s[index]);
        } else {
            lemma_sum_window_shift(s, index - window_size, index);
            assert(step_divisor(index - 1, window_size) == window_size);
            assert(step_divisor(index, window_size) == window_size);
            assert(step_leaving(index, window_size) == Some(index - window_size));
        }
    }
}

/// Each step of the moving average averages the last `min(index + 1, window_size)`
/// readings: the divisor is at least one, reaches neither the window size nor
/// the number of readings seen so far, and is one of the two; a reading leaves
/// exactly from the step `window_size` positions after it.
pub proof fn lemma_step_is_the_causal_window(index: int, window_size: int)
    requires
        window_size > 0,
        index >= 0,
    ensures
        1 <= step_divisor(index, window_size),
        step_divisor(index, window_size) <= window_size,
        step_divisor(index, window_size) <= index + 1,
        step_divisor(index, window_size) == window_size || step_divisor(index, window_size)
            == index + 1,
        step_leaving(index, window_size) is Some <==> index >= window_size,
        step_leaving(index, window_size) matches Some(j) ==> j + window_size == index,
{
}

/// After the step at `index`, the running sum is the sum of the readings from
/// `max(0, index + 1 - window_size)` to `index`.
pub proof fn lemma_running_sum_is_last_readings(s: Seq<int>, window_size: int, index: int)
    requires
        window_size > 0,
        0 <= index < s.len(),
    ensures
        running_sum(s, window_size, index + 1) == sum(
            s.subrange(
                if index + 1 < window_size {
                    0
                } else {
                    index + 1 - window_size
                },
                index + 1,
            ),
        ),
{
    lemma_running_sum_is_window_sum(s, window_size, index);
    lemma_step_is_the_causal_window(index, window_size);
}

} // verus!

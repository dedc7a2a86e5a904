//! Amplitude summaries: which reading is the peak, the minimum and the
//! maximum of a signal. Empty signals and non-finite readings give `None`.
use vstd::prelude::*;
use crate::reading::{Reading, valid_signal, is_valid_signal};

verus! {

/// Position `i` holds the first smallest reading of the signal.
pub open spec fn is_first_min(s: Seq<Reading>, i: int) -> bool {
    &&& 0 <= i < s.len()
    &&& forall|j: int| 0 <= j < s.len() ==> s[i].key() <= #[trigger] s[j].key()
    &&& forall|j: int| 0 <= j < i ==> s[i].key() < #[trigger] s[j].key()
}

/// Position `i` holds the first largest reading of the signal.
pub open spec fn is_first_max(s: Seq<Reading>, i: int) -> bool {
    &&& 0 <= i < s.len()
    &&& forall|j: int| 0 <= j < s.len() ==> #[trigger] s[j].key() <= s[i].key()
    &&& forall|j: int| 0 <= j < i ==> #[trigger] s[j].key() < s[i].key()
}

/// Position `i` holds the first reading of largest magnitude.
pub open spec fn is_first_peak(s: Seq<Reading>, i: int) -> bool {
    &&& 0 <= i < s.len()
    &&& forall|j: int| 0 <= j < s.len() ==> #[trigger] s[j].magnitude() <= s[i].magnitude()
    &&& forall|j: int| 0 <= j < i ==> #[trigger] s[j].magnitude() < s[i].magnitude()
}

/// The key of a reading.
pub fn key_of(r: Reading) -> (k: i64)
    ensures
        k == r.key(),
{
    match r {
        Reading::Finite(k) => k,
        Reading::NonFinite => 0,
    }
}

/// The magnitude key of a reading.
pub fn magnitude_of(r: Reading) -> (m: u64)
    ensures
        m == r.magnitude(),
{
    let k = key_of(r);
    if k >= 0 {
        k as u64
    } else {
        let wide: i128 = -(k as i128);
        wide as u64
    }
}

/// The position of the first smallest reading of a non-empty signal.
pub fn min_index(samples: &[Reading]) -> (i: usize)
    requires
        samples@.len() > 0,
    ensures
        is_first_min(samples@, i as int),
{
    let mut best: usize = 0;
    let mut best_key = key_of(samples[0]);
    let mut j: usize = 1;
    while j < samples.len()
        invariant
            1 <= j <= samples.len(),
            best < j,
            best_key == samples@[best as int].key(),
            forall|k: int| 0 <= k < j ==> best_key <= #[trigger] samples@[k].key(),
            forall|k: int| 0 <= k < best ==> best_key < #[trigger] samples@[k].key(),
        decreases samples.len() - j,
    {
        let key = key_of(samples[j]);
        if key < best_key {
            best = j;
            best_key = key;
        }
        j = j + 1;
    }
    best
}

/// The position of the first largest reading of a non-empty signal.
pub fn max_index(samples: &[Reading]) -> (i: usize)
    requires
        samples@.len() > 0,
    ensures
        is_first_max(samples@, i as int),
{
    let mut best: usize = 0;
    let mut best_key = key_of(samples[0]);
    let mut j: usize = 1;
    while j < samples.len()
        invariant
            1 <= j <= samples.len(),
            best < j,
            best_key == samples@[best as int].key(),
            forall|k: int| 0 <= k < j ==> #[trigger] samples@[k].key() <= best_key,
            forall|k: int| 0 <= k < best ==> #[trigger] samples@[k].key() < best_key,
        decreases samples.len() - j,
    {
        let key = key_of(samples[j]);
        if key > best_key {
            best = j;
            best_key = key;
        }
        j = j + 1;
    }
    best
}

/// The position of the first reading of largest magnitude of a non-empty signal.
pub fn peak_index(samples: &[Reading]) -> (i: usize)
    requires
        samples@.len() > 0,
    ensures
        is_first_peak(samples@, i as int),
{
    let mut best: usize = 0;
    let mut best_magnitude = magnitude_of(samples[0]);
    let mut j: usize = 1;
    while j < samples.len()
        invariant
            1 <= j <= samples.len(),
            best < j,
            best_magnitude == samples@[best as int].magnitude(),
            forall|k: int| 0 <= k < j ==> #[trigger] samples@[k].magnitude() <= best_magnitude,
            forall|k: int| 0 <= k < best ==> #[trigger] samples@[k].magnitude() < best_magnitude,
        decreases samples.len() - j,
    {
        let magnitude = magnitude_of(samples[j]);
        if magnitude > best_magnitude {
            best = j;
            best_magnitude = magnitude;
        }
        j = j + 1;
    }
    best
}

/// Where the peak amplitude of the signal stands: the first reading of
/// largest magnitude; `None` for an empty signal or a non-finite reading.
pub fn peak_amplitude_index(samples: &[Reading]) -> (r: Option<usize>)
    ensures
        r is None <==> !valid_signal(samples@),
        r matches Some(i) ==> is_first_peak(samples@, i as int),
{
    if !is_valid_signal(samples) {
        return None;
    }
    Some(peak_index(samples))
}

/// Where the minimum amplitude of the signal stands: its first smallest
/// reading; `None` for an empty signal or a non-finite reading.
pub fn min_amplitude_index(samples: &[Reading]) -> (r: Option<usize>)
    ensures
        r is None <==> !valid_signal(samples@),
        r matches Some(i) ==> is_first_min(samples@, i as int),
{
    if !is_valid_signal(samples) {
        return None;
    }
    Some(min_index(samples))
}

/// Where the maximum amplitude of the signal stands: its first largest
/// reading; `None` for an empty signal or a non-finite reading.
pub fn max_amplitude_index(samples: &[Reading]) -> (r: Option<usize>)
    ensures
        r is None <==> !valid_signal(samples@),
        r matches Some(i) ==> is_first_max(samples@, i as int),
{
    if !is_valid_signal(samples) {
        return None;
    }
    Some(max_index(samples))
}

/// Where the two ends of the peak-to-peak amplitude stand: the minimum and
/// the maximum; `None` for an empty signal or a non-finite reading.
pub fn peak_to_peak_indices(samples: &[Reading]) -> (r: Option<(usize, usize)>)
    ensures
        r is None <==> !valid_signal(samples@),
        r matches Some((lo, hi)) ==> is_first_min(samples@, lo as int) && is_first_max(
            samples@,
            hi as int,
        ),
{
    if !is_valid_signal(samples) {
        return None;
    }
    Some((min_index(samples), max_index(samples)))
}

/// The peak amplitude is the larger magnitude of the minimum and the maximum.
pub proof fn lemma_peak_is_an_extreme(s: Seq<Reading>, lo: int, hi: int, peak: int)
    requires
        is_first_min(s, lo),
        is_first_max(s, hi),
        is_first_peak(s, peak),
    ensures
        s[peak].magnitude() == if s[lo].magnitude() < s[hi].magnitude() {
            s[hi].magnitude()
        } else {
            s[lo].magnitude()
        },
{
    assert(s[lo].key() <= s[peak].key() <= s[hi].key());
    assert(s[lo].magnitude() <= s[peak].magnitude());
    assert(s[hi].magnitude() <= s[peak].magnitude());
}

/// The peak bounds every reading from both sides: each key lies between the
/// negated peak magnitude and the peak magnitude, which is the peak's own key
/// or its negation.
pub proof fn lemma_peak_bounds_every_reading(s: Seq<Reading>, peak: int)
    requires
        is_first_peak(s, peak),
    ensures
        forall|j: int|
            0 <= j < s.len() ==> -s[peak].magnitude() <= #[trigger] s[j].key() <= s[peak].magnitude(),
        s[peak].magnitude() == s[peak].key() || s[peak].magnitude() == -s[peak].key(),
{
    assert forall|j: int| 0 <= j < s.len() implies -s[peak].magnitude() <= #[trigger] s[j].key()
        <= s[peak].magnitude() by {
        assert(s[j].magnitude() <= s[peak].magnitude());
    }
}

} // verus!

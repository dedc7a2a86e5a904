//! Zero-crossing counting.
//!
//! Exact zero values are neutral: they do not create a crossing on their own,
//! and they do not break the sign continuity between the non-zero finite
//! readings around them. A non-finite reading breaks that continuity.
use vstd::prelude::*;
use crate::reading::{Reading, all_finite, all_finite_readings};

verus! {

/// Two consecutive readings cross zero: both finite, of strictly opposite signs.
pub open spec fn crosses(previous: Reading, current: Reading) -> bool {
    (previous.is_negative() && current.is_positive()) || (previous.is_positive()
        && current.is_negative())
}

/// The sign (`true` for positive) of the nearest non-zero reading before
/// position `j`, when only exact zeros lie between it and `j`; `None` when a
/// non-finite reading or the start of the signal comes first.
pub open spec fn sign_before(s: Seq<Reading>, j: int) -> Option<bool>
    decreases j,
{
    if j <= 0 {
        None
    } else {
        match s[j - 1] {
            Reading::NonFinite => None,
            Reading::Finite(k) => if k == 0 {
                sign_before(s, j - 1)
            } else {
                Some(k > 0)
            },
        }
    }
}

/// The reading at position `j` is non-zero, finite, and of the sign opposite
/// to the one carried over from before it.
pub open spec fn crossing_at(s: Seq<Reading>, j: int) -> bool {
    match s[j] {
        Reading::NonFinite => false,
        Reading::Finite(k) => k != 0 && sign_before(s, j) == Some(k < 0),
    }
}

/// The number of crossings among the first `n` positions of the signal.
pub open spec fn crossings_upto(s: Seq<Reading>, n: int) -> nat
    decreases n,
{
    if n <= 0 {
        0
    } else {
        crossings_upto(s, n - 1) + if crossing_at(s, n - 1) {
            1nat
        } else {
            0nat
        }
    }
}

/// The number of zero crossings of the whole signal.
pub open spec fn crossings(s: Seq<Reading>) -> nat {
    crossings_upto(s, s.len() as int)
}

/// Tells whether the signal crosses zero between two consecutive readings.
pub fn crosses_zero(previous: Reading, current: Reading) -> (r: bool)
    ensures
        r == crosses(previous, current),
{
    match (previous, current) {
        (Reading::Finite(p), Reading::Finite(c)) => (p < 0 && c > 0) || (p > 0 && c < 0),
        _ => false,
    }
}

/// Counts the zero crossings of a signal, skipping exact zeros and restarting
/// after each non-finite reading.
pub fn zero_crossing_count(samples: &[Reading]) -> (count: usize)
    ensures
        count == crossings(samples@),
{
    let mut previous_sign: Option<bool> = None;
    let mut count: usize = 0;
    let mut i: usize = 0;
    while i < samples.len()
        invariant
            i <= samples.len(),
            count <= i,
            count == crossings_upto(samples@, i as int),
            previous_sign == sign_before(samples@, i as int),
        decreases samples.len() - i,
    {
        match samples[i] {
            Reading::Finite(k) => {
                if k != 0 {
                    let sign = k > 0;
                    match previous_sign {
                        Some(previous) => {
                            if previous != sign {
                                count = count + 1;
                            }
                        },
                        None => {},
                    }
                    previous_sign = Some(sign);
                }
            },
            Reading::NonFinite => {
                previous_sign = None;
            },
        }
        i = i + 1;
    }
    count
}

/// The two terms of the zero-crossing rate: the number of crossings and the
/// number of intervals between consecutive readings. `None` for fewer than
/// two readings or when some reading is not finite.
pub fn zero_crossing_rate_parts(samples: &[Reading]) -> (parts: Option<(usize, usize)>)
    ensures
        parts is None <==> (samples@.len() < 2 || !all_finite(samples@)),
        parts matches Some((count, intervals)) ==> {
            &&& count == crossings(samples@)
            &&& intervals == samples@.len() - 1
            &&& count <= intervals
        },
{
    if samples.len() < 2 || !all_finite_readings(samples) {
        return None;
    }
    let count = zero_crossing_count(samples);
    proof {
        lemma_crossings_bounded(samples@);
    }
    Some((count, samples.len() - 1))
}

/// No crossing happens at the first position.
proof fn lemma_no_crossing_at_start(s: Seq<Reading>)
    requires
        s.len() > 0,
    ensures
        !crossing_at(s, 0),
{
}

/// Among the first `n` positions there are at most `n - 1` crossings.
proof fn lemma_crossings_upto_bounded(s: Seq<Reading>, n: int)
    requires
        1 <= n <= s.len(),
    ensures
        crossings_upto(s, n) <= n - 1,
    decreases n,
{
    if n == 1 {
        lemma_no_crossing_at_start(s);
        assert(crossings_upto(s, 0) == 0);
    } else {
        lemma_crossings_upto_bounded(s, n - 1);
    }
}

/// A signal of `n >= 1` readings has at most `n - 1` zero crossings.
pub proof fn lemma_crossings_bounded(s: Seq<Reading>)
    requires
        s.len() >= 1,
    ensures
        crossings(s) <= s.len() - 1,
{
    lemma_crossings_upto_bounded(s, s.len() as int);
}

/// A signal of two readings has one crossing exactly when the two readings
/// cross zero, and none otherwise.
pub proof fn lemma_pair_count_is_crosses(a: Reading, b: Reading)
    ensures
        crossings(seq![a, b]) == if crosses(a, b) {
            1nat
        } else {
            0nat
        },
{
    let s = seq![a, b];
    assert(s[0] == a && s[1] == b);
    assert(sign_before(s, 0) is None);
    assert(!crossing_at(s, 0));
    assert(crossings_upto(s, 0) == 0);
    assert(crossings_upto(s, 1) == 0);
    assert(sign_before(s, 1) == sign_before(s, 0) || sign_before(s, 1) == Some(a.key() > 0));
    assert(crossings_upto(s, 2) == crossings_upto(s, 1) + if crossing_at(s, 1) {
        1nat
    } else {
        0nat
    });
}


/// Inserting a zero at `i` does not change the carried sign up to `i`.
proof fn lemma_insert_zero_prefix_sign(s: Seq<Reading>, i: int, j: int)
    requires
        0 <= i <= s.len(),
        0 <= j <= i,
    ensures
        sign_before(s.insert(i, Reading::Finite(0)), j) == sign_before(s, j),
    decreases j,
{
    if j > 0 {
        lemma_insert_zero_prefix_sign(s, i, j - 1);
        assert(s.insert(i, Reading::Finite(0))[j - 1] == s[j - 1]);
    }
}

/// After an inserted zero, the carried sign is the one of the matching
/// position of the original signal.
proof fn lemma_insert_zero_shifted_sign(s: Seq<Reading>, i: int, j: int)
    requires
        0 <= i <= s.len(),
        i < j <= s.len() + 1,
    ensures
        sign_before(s.insert(i, Reading::Finite(0)), j) == sign_before(s, j - 1),
    decreases j,
{
    let t = s.insert(i, Reading::Finite(0));
    if j == i + 1 {
        assert(t[i] == Reading::Finite(0));
        lemma_insert_zero_prefix_sign(s, i, i);
    } else {
        lemma_insert_zero_shifted_sign(s, i, j - 1);
        assert(t[j - 1] == s[j - 2]);
    }
}

proof fn lemma_insert_zero_prefix_count(s: Seq<Reading>, i: int, m: int)
    requires
        0 <= i <= s.len(),
        0 <= m <= i,
    ensures
        crossings_upto(s.insert(i, Reading::Finite(0)), m) == crossings_upto(s, m),
    decreases m,
{
    if m > 0 {
        lemma_insert_zero_prefix_count(s, i, m - 1);
        lemma_insert_zero_prefix_sign(s, i, m - 1);
        assert(s.insert(i, Reading::Finite(0))[m - 1] == s[m - 1]);
    }
}

proof fn lemma_insert_zero_shifted_count(s: Seq<Reading>, i: int, n: int)
    requires
        0 <= i <= n <= s.len(),
    ensures
        crossings_upto(s.insert(i, Reading::Finite(0)), n + 1) == crossings_upto(s, n),
    decreases n,
{
    let t = s.insert(i, Reading::Finite(0));
    if n == i {
        lemma_insert_zero_prefix_count(s, i, i);
        assert(t[i] == Reading::Finite(0));
        assert(!crossing_at(t, i));
    } else {
        lemma_insert_zero_shifted_count(s, i, n - 1);
        lemma_insert_zero_shifted_sign(s, i, n);
        assert(t[n] == s[n - 1]);
        assert(crossing_at(t, n) == crossing_at(s, n - 1));
    }
}

/// Exact zeros are neutral: inserting a zero reading anywhere in a signal
/// leaves its number of zero crossings unchanged.
pub proof fn lemma_zero_is_neutral(s: Seq<Reading>, i: int)
    requires
        0 <= i <= s.len(),
    ensures
        crossings(s.insert(i, Reading::Finite(0))) == crossings(s),
{
    lemma_insert_zero_shifted_count(s, i, s.len() as int);
}

proof fn lemma_split_prefix_sign(a: Seq<Reading>, b: Seq<Reading>, j: int)
    requires
        0 <= j <= a.len(),
    ensures
        sign_before(a + seq![Reading::NonFinite] + b, j) == sign_before(a, j),
    decreases j,
{
    if j > 0 {
        lemma_split_prefix_sign(a, b, j - 1);
        assert((a + seq![Reading::NonFinite] + b)[j - 1] == a[j - 1]);
    }
}

proof fn lemma_split_suffix_sign(a: Seq<Reading>, b: Seq<Reading>, j: int)
    requires
        a.len() < j <= a.len() + 1 + b.len(),
    ensures
        sign_before(a + seq![Reading::NonFinite] + b, j) == sign_before(b, j - a.len() - 1),
    decreases j,
{
    let t = a + seq![Reading::NonFinite] + b;
    if j == a.len() + 1 {
        assert(t[a.len() as int] == Reading::NonFinite);
    } else {
        lemma_split_suffix_sign(a, b, j - 1);
        assert(t[j - 1] == b[j - a.len() - 2]);
    }
}

proof fn lemma_split_prefix_count(a: Seq<Reading>, b: Seq<Reading>, m: int)
    requires
        0 <= m <= a.len(),
    ensures
        crossings_upto(a + seq![Reading::NonFinite] + b, m) == crossings_upto(a, m),
    decreases m,
{
    if m > 0 {
        lemma_split_prefix_count(a, b, m - 1);
        lemma_split_prefix_sign(a, b, m - 1);
        assert((a + seq![Reading::NonFinite] + b)[m - 1] == a[m - 1]);
    }
}

proof fn lemma_split_suffix_count(a: Seq<Reading>, b: Seq<Reading>, k: int)
    requires
        0 <= k <= b.len(),
    ensures
        crossings_upto(a + seq![Reading::NonFinite] + b, a.len() + 1 + k) == crossings_upto(
            a,
            a.len() as int,
        ) + crossings_upto(b, k),
    decreases k,
{
    let t = a + seq![Reading::NonFinite] + b;
    if k == 0 {
        lemma_split_prefix_count(a, b, a.len() as int);
        assert(t[a.len() as int] == Reading::NonFinite);
        assert(!crossing_at(t, a.len() as int));
    } else {
        lemma_split_suffix_count(a, b, k - 1);
        lemma_split_suffix_sign(a, b, a.len() + k);
        assert(t[a.len() + k] == b[k - 1]);
        assert(crossing_at(t, a.len() + k) == crossing_at(b, k - 1));
    }
}

/// A non-finite reading breaks sign continuity: the crossings of two signals
/// joined by a non-finite reading are those of each signal, added.
pub proof fn lemma_non_finite_splits(a: Seq<Reading>, b: Seq<Reading>)
    ensures
        crossings(a + seq![Reading::NonFinite] + b) == crossings(a) + crossings(b),
{
    lemma_split_suffix_count(a, b, b.len() as int);
}


proof fn lemma_repeat_prefix_sign(s: Seq<Reading>, i: int, j: int)
    requires
        0 <= i < s.len(),
        0 <= j <= i + 1,
    ensures
        sign_before(s.insert(i + 1, s[i]), j) == sign_before(s, j),
    decreases j,
{
    if j > 0 {
        lemma_repeat_prefix_sign(s, i, j - 1);
        assert(s.insert(i + 1, s[i])[j - 1] == s[j - 1]);
    }
}

proof fn lemma_repeat_shifted_sign(s: Seq<Reading>, i: int, j: int)
    requires
        0 <= i < s.len(),
        i + 1 < j <= s.len() + 1,
    ensures
        sign_before(s.insert(i + 1, s[i]), j) == sign_before(s, j - 1),
    decreases j,
{
    let t = s.insert(i + 1, s[i]);
    if j == i + 2 {
        assert(t[i + 1] == s[i]);
        lemma_repeat_prefix_sign(s, i, i + 1);
        lemma_repeat_prefix_sign(s, i, i);
    } else {
        lemma_repeat_shifted_sign(s, i, j - 1);
        assert(t[j - 1] == s[j - 2]);
    }
}

proof fn lemma_repeat_prefix_count(s: Seq<Reading>, i: int, m: int)
    requires
        0 <= i < s.len(),
        0 <= m <= i + 1,
    ensures
        crossings_upto(s.insert(i + 1, s[i]), m) == crossings_upto(s, m),
    decreases m,
{
    if m > 0 {
        lemma_repeat_prefix_count(s, i, m - 1);
        lemma_repeat_prefix_sign(s, i, m - 1);
        assert(s.insert(i + 1, s[i])[m - 1] == s[m - 1]);
    }
}

proof fn lemma_repeat_shifted_count(s: Seq<Reading>, i: int, n: int)
    requires
        0 <= i < s.len(),
        i + 1 <= n <= s.len(),
    ensures
        crossings_upto(s.insert(i + 1, s[i]), n + 1) == crossings_upto(s, n),
    decreases n,
{
    let t = s.insert(i + 1, s[i]);
    if n == i + 1 {
        lemma_repeat_prefix_count(s, i, i + 1);
        lemma_repeat_prefix_sign(s, i, i + 1);
        lemma_repeat_prefix_sign(s, i, i);
        assert(t[i + 1] == s[i]);
        assert(!crossing_at(t, i + 1));
    } else {
        lemma_repeat_shifted_count(s, i, n - 1);
        lemma_repeat_shifted_sign(s, i, n);
        assert(t[n] == s[n - 1]);
        assert(crossing_at(t, n) == crossing_at(s, n - 1));
    }
}

/// Repeating a reading in place never adds or removes a crossing: a sign is
/// carried over until a reading of the opposite sign (or a non-finite one)
/// comes, however often it repeats.
pub proof fn lemma_repeated_reading_is_neutral(s: Seq<Reading>, i: int)
    requires
        0 <= i < s.len(),
    ensures
        crossings(s.insert(i + 1, s[i])) == crossings(s),
{
    lemma_repeat_shifted_count(s, i, s.len() as int);
}

/// The number of positions `j` in `1..n` where the key changes sign from
/// position `j - 1` to position `j`.
pub open spec fn adjacent_sign_changes(s: Seq<Reading>, n: int) -> nat
    decreases n,
{
    if n <= 1 {
        0
    } else {
        adjacent_sign_changes(s, n - 1) + if (s[n - 2].key() < 0) != (s[n - 1].key() < 0) {
            1nat
        } else {
            0nat
        }
    }
}

/// Every reading is finite and non-zero.
pub open spec fn nonzero_finite(s: Seq<Reading>) -> bool {
    forall|i: int| 0 <= i < s.len() ==> #[trigger] s[i].finite() && s[i].key() != 0
}

proof fn lemma_sign_changes_upto(s: Seq<Reading>, n: int)
    requires
        nonzero_finite(s),
        1 <= n <= s.len(),
    ensures
        crossings_upto(s, n) == adjacent_sign_changes(s, n),
    decreases n,
{
    if n == 1 {
        lemma_no_crossing_at_start(s);
        assert(crossings_upto(s, 0) == 0);
    } else {
        lemma_sign_changes_upto(s, n - 1);
        assert(s[n - 2].finite() && s[n - 2].key() != 0);
        assert(s[n - 1].finite() && s[n - 1].key() != 0);
        assert(sign_before(s, n - 1) == Some(s[n - 2].key() > 0));
    }
}

/// For a signal of non-zero finite readings, the zero crossings are exactly
/// the adjacent pairs of readings of opposite sign.
pub proof fn lemma_crossings_of_nonzero_signal(s: Seq<Reading>)
    requires
        nonzero_finite(s),
    ensures
        crossings(s) == adjacent_sign_changes(s, s.len() as int),
{
    if s.len() > 0 {
        lemma_sign_changes_upto(s, s.len() as int);
    }
}

} // verus!

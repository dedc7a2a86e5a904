//! What the library reads of a floating-point sample.
use vstd::prelude::*;

verus! {

/// A sample value as the library sees it.
///
/// `Finite(key)` stands for a finite value. The key is an integer encoding of
/// the value that keeps its order (`a < b` exactly when `key(a) < key(b)`),
/// maps both zeros to `0`, and maps a value and its negation to opposite keys,
/// so that the key's sign is the value's sign and its absolute value orders
/// the value's magnitude. `NonFinite` stands for a NaN or an infinity.
#[derive(Debug, Clone, Copy, PartialEq, Eq, Structural)]
pub enum Reading {
    Finite(i64),
    NonFinite,
}

impl Reading {
    pub open spec fn finite(self) -> bool {
        self is Finite
    }

    /// The key of a finite reading (zero for a non-finite one).
    pub open spec fn key(self) -> int {
        match self {
            Reading::Finite(k) => k as int,
            Reading::NonFinite => 0,
        }
    }

    pub open spec fn is_positive(self) -> bool {
        self.finite() && self.key() > 0
    }

    pub open spec fn is_negative(self) -> bool {
        self.finite() && self.key() < 0
    }

    pub open spec fn is_zero(self) -> bool {
        self.finite() && self.key() == 0
    }

    /// The order key of the value's magnitude.
    pub open spec fn magnitude(self) -> int {
        if self.key() < 0 {
            -self.key()
        } else {
            self.key()
        }
    }
}

/// Every reading of the signal is finite.
pub open spec fn all_finite(s: Seq<Reading>) -> bool {
    forall|i: int| 0 <= i < s.len() ==> #[trigger] s[i].finite()
}

/// A signal that the summary helpers accept: not empty, and finite throughout.
pub open spec fn valid_signal(s: Seq<Reading>) -> bool {
    s.len() > 0 && all_finite(s)
}

/// Tells whether every reading is finite.
pub fn all_finite_readings(readings: &[Reading]) -> (ok: bool)
    ensures
        ok == all_finite(readings@),
{
    let mut i: usize = 0;
    while i < readings.len()
        invariant
            i <= readings.len(),
            forall|j: int| 0 <= j < i ==> #[trigger] readings@[j].finite(),
        decreases readings.len() - i,
    {
        match readings[i] {
            Reading::NonFinite => {
                assert(!readings@[i as int].finite());
                return false;
            },
            Reading::Finite(_) => {},
        }
        i = i + 1;
    }
    true
}

/// Tells whether a signal is non-empty and finite throughout.
pub fn is_valid_signal(readings: &[Reading]) -> (ok: bool)
    ensures
        ok == valid_signal(readings@),
{
    readings.len() > 0 && all_finite_readings(readings)
}

/// Tells whether a reading is finite and strictly positive.
pub fn is_positive_reading(value: Reading) -> (r: bool)
    ensures
        r == value.is_positive(),
{
    match value {
        Reading::Finite(k) => k > 0,
        Reading::NonFinite => false,
    }
}

/// A value and its negation have the same magnitude, and the magnitude of a
/// value at or above zero is its key: the magnitude is the key's absolute value.
pub proof fn lemma_magnitude_is_absolute_key(k: i64)
    requires
        k > i64::MIN,
    ensures
        Reading::Finite(k).magnitude() == Reading::Finite((-k) as i64).magnitude(),
        k >= 0 ==> Reading::Finite(k).magnitude() == k,
        Reading::Finite(k).magnitude() >= 0,
        Reading::Finite(k).magnitude() == k || Reading::Finite(k).magnitude() == -k,
{
}

} // verus!

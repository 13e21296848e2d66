//! Conversion between raw brightness units and whole percentages.
//!
//! The Intel driver exposes brightness as an integer in raw device units,
//! bounded by a device maximum. The tool presents it as a percentage:
//! `percentage = (raw / max) * 100`, computed here in integer arithmetic
//! (the division rounds down).

use vstd::arithmetic::div_mod::lemma_div_multiples_vanish;
use vstd::prelude::*;

verus! {

/// Raw device value that stands for full brightness.
pub const MAX_RAW: u64 = 120000;

/// The percentage shown for a raw brightness value: `(raw / max) * 100`,
/// in integer arithmetic.
pub open spec fn percent_of_raw(raw: int) -> int {
    raw * 100 / (MAX_RAW as int)
}

/// The raw value written for a percentage: `max * (p / 100)`,
/// in integer arithmetic.
pub open spec fn raw_of_percent(p: int) -> int {
    (MAX_RAW as int) * p / 100
}

/// The device maximum is a multiple of 100, so a percentage converts to a
/// raw value with no rounding at all: `raw_of_percent(p) == 1200 * p`.
pub proof fn lemma_raw_of_percent_linear(p: int)
    ensures
        raw_of_percent(p) == 1200 * p,
{
    assert((MAX_RAW as int) * p == 100 * (1200 * p));
    lemma_div_multiples_vanish(1200 * p, 100);
}

/// A raw value that is an exact multiple of one percent converts back to
/// that percentage with no rounding.
pub proof fn lemma_percent_of_raw_multiple(p: int)
    ensures
        percent_of_raw(1200 * p) == p,
{
    assert((1200 * p) * 100 == (MAX_RAW as int) * p);
    lemma_div_multiples_vanish(p, MAX_RAW as int);
}

/// Converting a percentage to raw units and back returns the same
/// percentage: the round trip is exact for every percentage in [0, 100].
pub proof fn lemma_percent_round_trip(p: int)
    requires
        0 <= p <= 100,
    ensures
        percent_of_raw(raw_of_percent(p)) == p,
{
    lemma_raw_of_percent_linear(p);
    lemma_percent_of_raw_multiple(p);
}

/// The percentage the current raw brightness stands for.
pub fn to_percent(raw: u64) -> (r: u64)
    requires
        raw <= MAX_RAW,
    ensures
        r == percent_of_raw(raw as int),
        r <= 100,
{
    proof {
        vstd::arithmetic::div_mod::lemma_div_is_ordered(
            raw as int * 100,
            MAX_RAW as int * 100,
            MAX_RAW as int,
        );
        lemma_div_multiples_vanish(100, MAX_RAW as int);
    }
    raw * 100 / MAX_RAW
}

/// The raw value to write for a percentage. Percentages above 100 are
/// meaningful here as well: an increment may aim past full brightness,
/// exactly as the raw formula says.
pub fn to_raw(percent: u64) -> (r: u64)
    requires
        (MAX_RAW as int) * percent <= u64::MAX,
    ensures
        r == raw_of_percent(percent as int),
        percent <= 100 ==> r <= MAX_RAW,
{
    proof {
        lemma_raw_of_percent_linear(percent as int);
    }
    MAX_RAW * percent / 100
}

} // verus!

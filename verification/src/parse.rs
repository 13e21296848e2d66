//! Parsing the brightness attribute file.
//!
//! The file holds one line with the raw brightness: an unsigned decimal
//! number, possibly surrounded by whitespace (sysfs ends the line with a
//! newline). Anything else, including a number beyond the device maximum,
//! is treated as malformed and reported as `UnknownError`; the parser
//! returns an error for such content and never panics.

use crate::convert::MAX_RAW;
use crate::errors::{BacklightError, CheckErrors};
use vstd::prelude::*;

verus! {

/// ASCII space.
pub const SPACE: u8 = 32;

/// ASCII horizontal tab.
pub const TAB: u8 = 9;

/// ASCII line feed.
pub const NEWLINE: u8 = 10;

/// ASCII carriage return.
pub const CARRIAGE_RETURN: u8 = 13;

/// ASCII digit zero.
pub const DIGIT_ZERO: u8 = 48;

/// ASCII digit nine.
pub const DIGIT_NINE: u8 = 57;

/// Whitespace that may surround the number in the attribute file.
pub open spec fn is_space(b: u8) -> bool {
    b == SPACE || b == TAB || b == NEWLINE || b == CARRIAGE_RETURN
}

/// An ASCII decimal digit.
pub open spec fn is_digit(b: u8) -> bool {
    DIGIT_ZERO <= b && b <= DIGIT_NINE
}

/// Every byte of `s` is a decimal digit.
pub open spec fn all_digits(s: Seq<u8>) -> bool {
    forall|i: int| 0 <= i < s.len() ==> is_digit(s[i])
}

/// The number a sequence of decimal digits denotes, most significant first.
pub open spec fn digits_value(s: Seq<u8>) -> int
    decreases s.len(),
{
    if s.len() == 0 {
        0
    } else {
        digits_value(s.take(s.len() - 1)) * 10 + (s.last() - DIGIT_ZERO)
    }
}

/// `s` without its leading whitespace.
pub open spec fn trim_front(s: Seq<u8>) -> Seq<u8>
    decreases s.len(),
{
    if s.len() > 0 && is_space(s.first()) {
        trim_front(s.skip(1))
    } else {
        s
    }
}

/// `s` without its trailing whitespace.
pub open spec fn trim_back(s: Seq<u8>) -> Seq<u8>
    decreases s.len(),
{
    if s.len() > 0 && is_space(s.last()) {
        trim_back(s.take(s.len() - 1))
    } else {
        s
    }
}

/// `s` without leading or trailing whitespace.
pub open spec fn trim(s: Seq<u8>) -> Seq<u8> {
    trim_back(trim_front(s))
}

/// The file content holds a brightness value: after trimming, a nonempty
/// run of decimal digits whose value does not pass the device maximum.
pub open spec fn valid_brightness(s: Seq<u8>) -> bool {
    let t = trim(s);
    t.len() > 0 && all_digits(t) && digits_value(t) <= MAX_RAW
}

/// The raw brightness the file content denotes.
pub open spec fn brightness_value(s: Seq<u8>) -> int {
    digits_value(trim(s))
}

/// What parsing the file content returns.
pub open spec fn parse_result(s: Seq<u8>) -> Result<u64, BacklightError> {
    if valid_brightness(s) {
        Ok(brightness_value(s) as u64)
    } else {
        Err(BacklightError(CheckErrors::UnknownError))
    }
}

/// A run of digits denotes a nonnegative number.
proof fn lemma_digits_value_nonneg(s: Seq<u8>)
    requires
        all_digits(s),
    ensures
        digits_value(s) >= 0,
    decreases s.len(),
{
    if s.len() > 0 {
        lemma_digits_value_nonneg(s.take(s.len() - 1));
    }
}

/// Extending a run of digits by one digit multiplies its value by ten and
/// adds the new digit.
proof fn lemma_digits_value_step(s: Seq<u8>, k: int)
    requires
        0 <= k < s.len(),
    ensures
        digits_value(s.take(k + 1)) == digits_value(s.take(k)) * 10 + (s[k] - DIGIT_ZERO),
{
    assert(s.take(k + 1).take(k) =~= s.take(k));
    assert(s.take(k + 1).last() == s[k]);
}

/// A prefix of a run of digits denotes at most the whole run's value.
proof fn lemma_digits_value_take_le(s: Seq<u8>, k: int)
    requires
        all_digits(s),
        0 <= k <= s.len(),
    ensures
        digits_value(s.take(k)) <= digits_value(s),
    decreases s.len(),
{
    if k == s.len() {
        assert(s.take(k) =~= s);
    } else {
        let front = s.take(s.len() - 1);
        assert(forall|i: int| 0 <= i < front.len() ==> is_digit(#[trigger] front[i]));
        assert(s.take(k) =~= front.take(k));
        lemma_digits_value_take_le(front, k);
        lemma_digits_value_nonneg(front);
        assert(digits_value(s) == digits_value(front) * 10 + (s.last() - DIGIT_ZERO));
    }
}

/// Scanning past the leading whitespace lands on what `trim_front` keeps.
proof fn lemma_trim_front_at(s: Seq<u8>, start: int)
    requires
        0 <= start <= s.len(),
        forall|j: int| 0 <= j < start ==> is_space(#[trigger] s[j]),
        start < s.len() ==> !is_space(s[start]),
    ensures
        trim_front(s) == s.subrange(start, s.len() as int),
    decreases start,
{
    if start == 0 {
        assert(s.subrange(0, s.len() as int) =~= s);
    } else {
        let rest = s.skip(1);
        assert(forall|j: int| 0 <= j < start - 1 ==> is_space(#[trigger] rest[j]));
        lemma_trim_front_at(rest, start - 1);
        assert(rest.subrange(start - 1, rest.len() as int) =~= s.subrange(start, s.len() as int));
    }
}

/// Scanning back past the trailing whitespace lands on what `trim_back` keeps.
proof fn lemma_trim_back_at(s: Seq<u8>, end: int)
    requires
        0 <= end <= s.len(),
        forall|j: int| end <= j < s.len() ==> is_space(#[trigger] s[j]),
        end > 0 ==> !is_space(s[end - 1]),
    ensures
        trim_back(s) == s.take(end),
    decreases s.len(),
{
    if end == s.len() {
        assert(s.take(end) =~= s);
    } else {
        let front = s.take(s.len() - 1);
        assert(forall|j: int| end <= j < front.len() ==> is_space(#[trigger] front[j]));
        lemma_trim_back_at(front, end);
        assert(front.take(end) =~= s.take(end));
    }
}

/// The two scans of the parser find exactly the trimmed content.
proof fn lemma_trim_is_subrange(s: Seq<u8>, start: int, end: int)
    requires
        0 <= start <= end <= s.len(),
        forall|j: int| 0 <= j < start ==> is_space(#[trigger] s[j]),
        forall|j: int| end <= j < s.len() ==> is_space(#[trigger] s[j]),
        start < s.len() ==> !is_space(s[start]),
        end > start ==> !is_space(s[end - 1]),
    ensures
        trim(s) == s.subrange(start, end),
    decreases s.len(),
{
    lemma_trim_front_at(s, start);
    let u = s.subrange(start, s.len() as int);
    assert(forall|j: int| end - start <= j < u.len() ==> is_space(#[trigger] u[j]));
    if start < s.len() {
        assert(!is_space(u[0]));
        if end == start {
            assert(is_space(s[start]));
            assert(false);
        }
        lemma_trim_back_at(u, end - start);
        assert(u.take(end - start) =~= s.subrange(start, end));
    } else {
        assert(u =~= Seq::<u8>::empty());
        assert(trim_back(u) == u);
        assert(u =~= s.subrange(start, end));
    }
}

/// Reads the raw brightness out of the attribute file's content: the
/// number it holds if the content is well formed, and `UnknownError`
/// otherwise.
pub fn parse_brightness(line: &[u8]) -> (r: Result<u64, BacklightError>)
    ensures
        r == parse_result(line@),
{
    let n = line.len();
    let mut start: usize = 0;
    while start < n && is_space_byte(line[start])
        invariant
            n == line@.len(),
            0 <= start <= n,
            forall|j: int| 0 <= j < start ==> is_space(#[trigger] line@[j]),
        decreases n - start,
    {
        start += 1;
    }
    let mut end: usize = n;
    while end > start && is_space_byte(line[end - 1])
        invariant
            n == line@.len(),
            start <= end <= n,
            forall|j: int| end <= j < n ==> is_space(#[trigger] line@[j]),
        decreases end,
    {
        end -= 1;
    }
    proof {
        lemma_trim_is_subrange(line@, start as int, end as int);
    }
    let ghost t = line@.subrange(start as int, end as int);
    if start == end {
        return Err(BacklightError(CheckErrors::UnknownError));
    }
    let mut acc: u64 = 0;
    let mut i = start;
    while i < end
        invariant
            n == line@.len(),
            start <= i <= end <= n,
            t == line@.subrange(start as int, end as int),
            trim(line@) == t,
            t.len() == end - start,
            all_digits(t.take(i - start)),
            acc == digits_value(t.take(i - start)),
            acc <= MAX_RAW,
        decreases end - i,
    {
        let b = line[i];
        if b < DIGIT_ZERO || b > DIGIT_NINE {
            assert(!all_digits(t)) by {
                assert(!is_digit(t[i - start]));
            }
            return Err(BacklightError(CheckErrors::UnknownError));
        }
        let d = (b - DIGIT_ZERO) as u64;
        proof {
            lemma_digits_value_step(t, i - start);
        }
        let next = acc * 10 + d;
        if next > MAX_RAW {
            proof {
                if all_digits(t) {
                    lemma_digits_value_take_le(t, i - start + 1);
                    assert(digits_value(t) > MAX_RAW);
                }
                assert(!valid_brightness(line@));
            }
            return Err(BacklightError(CheckErrors::UnknownError));
        }
        acc = next;
        i += 1;
    }
    assert(t.take(end - start) =~= t);
    assert(valid_brightness(line@));
    Ok(acc)
}

/// Whether a byte is whitespace the parser skips.
fn is_space_byte(b: u8) -> (r: bool)
    ensures
        r == is_space(b),
{
    b == SPACE || b == TAB || b == NEWLINE || b == CARRIAGE_RETURN
}

} // verus!

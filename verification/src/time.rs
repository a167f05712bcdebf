//! Points in time, held as nanoseconds since the Unix epoch, and their text.
use vstd::prelude::*;

use crate::text::digit_char;

verus! {

/// The earliest instant `jiff::Timestamp` can hold, in nanoseconds since the epoch.
pub const MIN_TIMESTAMP_NANOS: i128 = -377_705_023_201_000_000_000i128;

/// The latest instant `jiff::Timestamp` can hold, in nanoseconds since the epoch.
pub const MAX_TIMESTAMP_NANOS: i128 = 253_402_207_200_999_999_999i128;

/// `ns` names an instant that `jiff::Timestamp` can hold.
pub open spec fn valid_timestamp(ns: int) -> bool {
    MIN_TIMESTAMP_NANOS <= ns <= MAX_TIMESTAMP_NANOS
}

/// What `jiff::Timestamp::strftime` writes for the instant `ns` and the format `pattern`.
pub uninterp spec fn timestamp_text(ns: i128, pattern: Seq<char>) -> Seq<char>;

/// Two decimal digits, zero padded.
pub open spec fn two_digits(n: int) -> Seq<char> {
    seq![digit_char((n / 10) as nat), digit_char((n % 10) as nat)]
}

/// Three decimal digits, zero padded.
pub open spec fn three_digits(n: int) -> Seq<char> {
    seq![digit_char((n / 100) as nat), digit_char(((n / 10) % 10) as nat), digit_char((n % 10) as nat)]
}

/// The UTC time of day of the instant `ns` as `HH:MM:SS.mmm`
/// (`%T.%3f`: the fraction is truncated to milliseconds).
pub open spec fn clock_text(ns: int) -> Seq<char> {
    let secs = ns / 1_000_000_000;
    let sub = ns % 1_000_000_000;
    let day_secs = secs % 86_400;
    two_digits(day_secs / 3600) + ":"@ + two_digits((day_secs % 3600) / 60) + ":"@ + two_digits(
        day_secs % 60,
    ) + "."@ + three_digits(sub / 1_000_000)
}

/// The `strftime` format for a time of day with milliseconds.
pub open spec fn clock_pattern() -> Seq<char> {
    "%T.%3f"@
}

/// Calls `jiff::Timestamp::now` and returns the instant in nanoseconds.
/// Which instant comes back depends on the system clock; only that it lies in
/// the range a `Timestamp` holds is stated. (`Timestamp::now` panics when the
/// system clock lies outside that range.)
#[verifier::external_body]
pub(crate) fn now_nanos() -> (r: i128)
    ensures
        valid_timestamp(r as int),
{
    jiff::Timestamp::now().as_nanosecond()
}

/// Calls `jiff::Timestamp::from_nanosecond` and `Timestamp::strftime`, and
/// collects the text. The result is named `timestamp_text`; for the pattern
/// `%T.%3f` it is the UTC time of day `HH:MM:SS.mmm`. `from_nanosecond` fails
/// only outside the range of `valid_timestamp`, and `strftime` never fails.
#[verifier::external_body]
pub(crate) fn format_timestamp(ns: i128, pattern: &str) -> (r: String)
    requires
        valid_timestamp(ns as int),
    ensures
        r@ == timestamp_text(ns, pattern@),
        pattern@ == clock_pattern() ==> r@ == clock_text(ns as int),
{
    jiff::Timestamp::from_nanosecond(ns).unwrap().strftime(pattern).to_string()
}

} // verus!

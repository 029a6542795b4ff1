//! Access to the wall clock, through chrono.
use vstd::prelude::*;

verus! {

/// A clock reading written `HH:MM:SS`: eight characters, colons at
/// positions 2 and 5, ASCII digits elsewhere.
pub open spec fn hms_shape(s: Seq<char>) -> bool {
    &&& s.len() == 8
    &&& s[2] == ':'
    &&& s[5] == ':'
    &&& forall|i: int| 0 <= i < 8 && i != 2 && i != 5 ==> '0' <= #[trigger] s[i] <= '9'
}

/// The current UTC time in microseconds since the Unix epoch
/// (`chrono::Utc::now().timestamp_micros()`). Nothing is stated of the
/// value: it depends on the time of the call.
#[verifier::external_body]
pub(crate) fn utc_now_micros() -> i64 {
    chrono::Utc::now().timestamp_micros()
}

/// The current local time as `HH:MM:SS`
/// (`chrono::Local::now().format("%H:%M:%S")`). Of the value only its shape
/// is stated, which chrono documents for these three fields (two
/// zero-padded digits each); the digits depend on the time of the call and
/// the machine's time zone.
#[verifier::external_body]
pub(crate) fn local_now_hms() -> (r: String)
    ensures
        hms_shape(r@),
{
    chrono::Local::now().format("%H:%M:%S").to_string()
}

/// Whether `c` is an ASCII digit.
pub open spec fn is_digit(c: char) -> bool {
    '0' <= c <= '9'
}

/// A year as chrono's `%Y` writes it: four digits (zero-padded) for the
/// years 0 to 9999, otherwise a sign followed by at least four digits.
pub open spec fn year_shape(y: Seq<char>) -> bool {
    ||| (y.len() == 4 && forall|i: int| 0 <= i < 4 ==> is_digit(#[trigger] y[i]))
    ||| (y.len() >= 5 && (y[0] == '+' || y[0] == '-') && forall|i: int| 1 <= i < y.len() ==> is_digit(
        #[trigger] y[i],
    ))
}

/// A local time written `YYYY-MM-DD_HH-MM-SS`: a year (see `year_shape`)
/// followed by fifteen characters, two digits each for month, day, hour,
/// minute and second, separated by `-`, `-`, `_`, `-`, `-`.
pub open spec fn file_stamp_shape(s: Seq<char>) -> bool {
    &&& s.len() >= 19
    &&& year_shape(s.take(s.len() - 15))
    &&& {
        let t = s.skip(s.len() - 15);
        &&& t[0] == '-'
        &&& t[3] == '-'
        &&& t[6] == '_'
        &&& t[9] == '-'
        &&& t[12] == '-'
        &&& forall|i: int| 0 <= i < 15 && i != 0 && i != 3 && i != 6 && i != 9 && i != 12 ==> is_digit(#[trigger] t[i])
    }
}

/// The current local time as `YYYY-MM-DD_HH-MM-SS`
/// (`chrono::Local::now().format("%Y-%m-%d_%H-%M-%S")`). Of the value only
/// its shape is stated, as chrono's formatting code writes it: the month,
/// day, hour, minute and second as two zero-padded digits each, the year as
/// four zero-padded digits for the years 0 to 9999 and with a sign outside
/// them. The digits depend on the time of the call and the time zone.
#[verifier::external_body]
pub(crate) fn local_now_file_stamp() -> (r: String)
    ensures
        file_stamp_shape(r@),
{
    chrono::Local::now().format("%Y-%m-%d_%H-%M-%S").to_string()
}

/// A random number from the thread's generator
/// (`rand::Rng::gen::<u32>(&mut rand::thread_rng())`). Nothing is stated of
/// it.
#[verifier::external_body]
pub(crate) fn random_u32() -> u32 {
    rand::Rng::gen::<u32>(&mut rand::thread_rng())
}

/// The current UTC time as `HH:MM:SS`
/// (`chrono::Utc::now().format("%H:%M:%S")`). Of the value only its shape
/// is stated; the digits depend on the time of the call.
#[verifier::external_body]
pub(crate) fn utc_now_hms() -> (r: String)
    ensures
        hms_shape(r@),
{
    chrono::Utc::now().format("%H:%M:%S").to_string()
}

/// The local time of the instant `secs` seconds and `nsecs` nanoseconds
/// after the Unix epoch, as `HH:MM:SS`
/// (`chrono::DateTime::from_timestamp`, converted to `chrono::Local` and
/// formatted). `None` where chrono refuses the instant: chrono's source
/// accepts every nanosecond count below one second together with a second
/// count within 8 * 10^12 of the epoch (about 253,000 years, inside the
/// years it represents), and refuses every nanosecond count of two seconds
/// or more. Of a result only its shape is stated: the digits depend on the
/// machine's time zone.
#[verifier::external_body]
pub(crate) fn local_hms_at(secs: i64, nsecs: u32) -> (r: Option<String>)
    ensures
        r matches Some(s) ==> hms_shape(s@),
        -8_000_000_000_000 <= secs <= 8_000_000_000_000 && nsecs < 1_000_000_000 ==> r is Some,
        nsecs >= 2_000_000_000 ==> r is None,
{
    match chrono::DateTime::from_timestamp(secs, nsecs) {
        Some(dt) => {
            let local: chrono::DateTime<chrono::Local> = dt.into();
            Some(local.format("%H:%M:%S").to_string())
        },
        None => None,
    }
}

/// The monotonic clock's instants (`std::time::Instant`), carried through
/// as opaque values.
#[verifier::external_type_specification]
#[verifier::external_body]
pub struct ExInstant(std::time::Instant);

/// `Instant::clone`: `Instant` is `Copy`, so the clone is the same instant.
pub assume_specification[ <std::time::Instant as Clone>::clone ](i: &std::time::Instant) -> (r:
    std::time::Instant)
    ensures
        r == *i,
;

/// The current instant of the monotonic clock (`std::time::Instant::now()`).
/// Nothing is stated of it.
#[verifier::external_body]
pub(crate) fn instant_now() -> std::time::Instant {
    std::time::Instant::now()
}

/// Microseconds passed on the monotonic clock since `start`
/// (`Instant::elapsed`, then `Duration::as_micros`). Nothing is stated of
/// the value: it depends on the time of the call.
#[verifier::external_body]
pub(crate) fn micros_since(start: &std::time::Instant) -> u128 {
    start.elapsed().as_micros()
}

} // verus!

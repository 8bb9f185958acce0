use vstd::prelude::*;
use vstd::string::*;
use crate::text::{dec_digits, digit_char, push_char};

verus! {

/// Relies on chrono's Utc::now and DateTime::timestamp_millis: the current
/// wall-clock time as milliseconds since the Unix epoch.  Nothing is promised
/// of the value; callers must cope with any reading.
#[verifier::external_body]
pub fn now_utc_millis() -> i64 {
    chrono::Utc::now().timestamp_millis()
}

/// Relies on chrono's TimeZone::timestamp_millis_opt for the local zone and
/// Timelike::num_seconds_from_midnight: the local time of day, in seconds,
/// for an epoch-milliseconds reading.  `None` when the reading is out of
/// chrono's range; the value depends on the machine's time zone.
#[verifier::external_body]
pub fn local_seconds_of_day(ms: i64) -> (r: Option<u32>)
    ensures
        r is Some ==> r->0 < 86400,
{
    match <chrono::Local as chrono::TimeZone>::timestamp_millis_opt(&chrono::Local, ms) {
        chrono::LocalResult::Single(dt) => Some(chrono::Timelike::num_seconds_from_midnight(&dt.time())),
        chrono::LocalResult::Ambiguous(dt, _) => Some(chrono::Timelike::num_seconds_from_midnight(&dt.time())),
        chrono::LocalResult::None => None,
    }
}

/// The milliseconds from `start` to `end`, clamped to zero when the clock
/// went backwards and to `u64::MAX` on overflow.
pub open spec fn elapsed_ms_spec(start: i64, end: i64) -> u64 {
    if end <= start {
        0u64
    } else if end - start > u64::MAX {
        u64::MAX
    } else {
        (end - start) as u64
    }
}

/// Clamped clock difference, as `elapsed_ms_spec` describes.
pub fn elapsed_ms(start: i64, end: i64) -> (r: u64)
    ensures
        r == elapsed_ms_spec(start, end),
{
    let s: i128 = start as i128;
    let e: i128 = end as i128;
    if e <= s {
        0
    } else {
        let d: i128 = e - s;
        if d > u64::MAX as i128 {
            u64::MAX
        } else {
            d as u64
        }
    }
}

/// A decimal number padded with zeroes on the left to at least two digits.
pub open spec fn two_digits(n: nat) -> Seq<char> {
    if n < 10 {
        seq![digit_char(0)] + dec_digits(n)
    } else {
        dec_digits(n)
    }
}

/// A second-of-day reading formatted as HH:MM:SS.
pub open spec fn clock_text(secs: nat) -> Seq<char> {
    two_digits(secs / 3600) + seq![':'] + two_digits((secs / 60) % 60) + seq![':']
        + two_digits(secs % 60)
}

/// Formats a second-of-day reading as HH:MM:SS, as `clock_text` describes.
pub fn format_clock(secs: u32) -> (r: String)
    requires
        secs < 86400,
    ensures
        r@ == clock_text(secs as nat),
{
    let mut out = String::new();
    push_pair(&mut out, secs / 3600);
    push_char(&mut out, ':');
    push_pair(&mut out, (secs / 60) % 60);
    push_char(&mut out, ':');
    push_pair(&mut out, secs % 60);
    proof {
        assert(out@ =~= clock_text(secs as nat));
    }
    out
}

/// Appends a two-digit zero-padded number below 100.
fn push_pair(out: &mut String, n: u32)
    requires
        n < 100,
    ensures
        final(out)@ == old(out)@ + two_digits(n as nat),
{
    if n < 10 {
        push_char(out, '0');
        let d: u8 = (n as u8) + 48;
        push_char(out, d as char);
        proof {
            assert(two_digits(n as nat) =~= seq![digit_char(0)] + dec_digits(n as nat));
            assert(out@ =~= old(out)@ + two_digits(n as nat));
        }
    } else {
        let hi: u8 = ((n / 10) as u8) + 48;
        let lo: u8 = ((n % 10) as u8) + 48;
        push_char(out, hi as char);
        push_char(out, lo as char);
        proof {
            assert(dec_digits(n as nat) == dec_digits((n as nat) / 10) + seq![digit_char((n as nat) % 10)]);
            assert(dec_digits((n as nat) / 10) == seq![digit_char((n as nat) / 10)]);
            assert(out@ =~= old(out)@ + two_digits(n as nat));
        }
    }
}

} // verus!

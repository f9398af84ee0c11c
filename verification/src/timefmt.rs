//! Normalized timestamp text.
//!
//! A listing reports each entry's modification time as `YYYY-MM-DD HH:MM:SS`
//! in the host's local time zone. The clock library supplies the civil
//! (wall-clock) fields for a given Unix timestamp; rendering those fields
//! into the fixed textual format is verified here.

use vstd::prelude::*;
use chrono::Datelike;
use chrono::TimeZone;
use chrono::Timelike;

verus! {

/// A civil (wall-clock) date and time in the host's local time zone.
#[derive(Clone, Copy, Debug, PartialEq, Eq, Structural)]
pub struct CivilTime {
    pub year: i32,
    pub month: u32,
    pub day: u32,
    pub hour: u32,
    pub minute: u32,
    pub second: u32,
}

impl CivilTime {
    /// Field ranges as a calendar gives them. The day is bounded by 31 only;
    /// per-month lengths are the clock library's concern, not this crate's.
    pub open spec fn wf(self) -> bool {
        &&& 1 <= self.month <= 12
        &&& 1 <= self.day <= 31
        &&& self.hour <= 23
        &&& self.minute <= 59
        &&& self.second <= 59
    }
}

/// The decimal digit character for `d`; meaningful for `0 <= d <= 9`.
pub open spec fn digit(d: int) -> char {
    if d == 0 {
        '0'
    } else if d == 1 {
        '1'
    } else if d == 2 {
        '2'
    } else if d == 3 {
        '3'
    } else if d == 4 {
        '4'
    } else if d == 5 {
        '5'
    } else if d == 6 {
        '6'
    } else if d == 7 {
        '7'
    } else if d == 8 {
        '8'
    } else {
        '9'
    }
}

/// `n` rendered as exactly two digits, zero-padded; meaningful for `0 <= n <= 99`.
pub open spec fn two_digits(n: int) -> Seq<char> {
    seq![digit(n / 10), digit(n % 10)]
}

/// `n` rendered as exactly four digits, zero-padded; meaningful for `0 <= n <= 9999`.
pub open spec fn four_digits(n: int) -> Seq<char> {
    seq![digit(n / 1000), digit((n / 100) % 10), digit((n / 10) % 10), digit(n % 10)]
}

/// The normalized `YYYY-MM-DD HH:MM:SS` text for a civil time.
pub open spec fn civil_text(t: CivilTime) -> Seq<char> {
    four_digits(t.year as int) + seq!['-'] + two_digits(t.month as int) + seq!['-']
        + two_digits(t.day as int) + seq![' '] + two_digits(t.hour as int) + seq![':']
        + two_digits(t.minute as int) + seq![':'] + two_digits(t.second as int)
}

/// The one-character string for a decimal digit.
fn digit_str(d: u32) -> (s: &'static str)
    requires
        d <= 9,
    ensures
        s@ =~= seq![digit(d as int)],
{
    let s: &'static str = match d {
        0 => "0",
        1 => "1",
        2 => "2",
        3 => "3",
        4 => "4",
        5 => "5",
        6 => "6",
        7 => "7",
        8 => "8",
        _ => "9",
    };
    proof {
        reveal_strlit("0");
        reveal_strlit("1");
        reveal_strlit("2");
        reveal_strlit("3");
        reveal_strlit("4");
        reveal_strlit("5");
        reveal_strlit("6");
        reveal_strlit("7");
        reveal_strlit("8");
        reveal_strlit("9");
    }
    s
}

/// Appends `n` as two zero-padded digits.
fn push_two_digits(out: &mut String, n: u32)
    requires
        n <= 99,
    ensures
        final(out)@ == old(out)@ + two_digits(n as int),
{
    out.append(digit_str(n / 10));
    out.append(digit_str(n % 10));
    proof {
        assert(out@ =~= old(out)@ + two_digits(n as int));
    }
}

/// Appends `n` as four zero-padded digits.
fn push_four_digits(out: &mut String, n: u32)
    requires
        n <= 9999,
    ensures
        final(out)@ == old(out)@ + four_digits(n as int),
{
    out.append(digit_str(n / 1000));
    out.append(digit_str((n / 100) % 10));
    out.append(digit_str((n / 10) % 10));
    out.append(digit_str(n % 10));
    proof {
        assert(out@ =~= old(out)@ + four_digits(n as int));
    }
}

/// Renders a civil time as `YYYY-MM-DD HH:MM:SS`.
///
/// Returns `None` exactly when the fields are out of calendar range or the
/// year does not fit the fixed four-digit year of the format.
pub fn format_civil(t: &CivilTime) -> (r: Option<String>)
    ensures
        r is Some <==> t.wf() && 0 <= t.year <= 9999,
        r matches Some(s) ==> s@ == civil_text(*t),
{
    if !(1 <= t.month && t.month <= 12 && 1 <= t.day && t.day <= 31 && t.hour <= 23
        && t.minute <= 59 && t.second <= 59 && 0 <= t.year && t.year <= 9999) {
        return None;
    }
    let mut out = String::new();
    push_four_digits(&mut out, t.year as u32);
    out.append("-");
    push_two_digits(&mut out, t.month);
    out.append("-");
    push_two_digits(&mut out, t.day);
    out.append(" ");
    push_two_digits(&mut out, t.hour);
    out.append(":");
    push_two_digits(&mut out, t.minute);
    out.append(":");
    push_two_digits(&mut out, t.second);
    proof {
        reveal_strlit("-");
        reveal_strlit(" ");
        reveal_strlit(":");
        assert(out@ =~= civil_text(*t));
    }
    Some(out)
}

/// Relies on chrono's `Local::timestamp_opt` (via the `TimeZone` trait) and
/// the `Datelike` / `Timelike` accessors: when the timestamp maps to a single
/// local time, the accessors return month in 1..=12, day in 1..=31, hour in
/// 0..=23, and minute and second in 0..=59. The local time zone is read from
/// the host environment, so nothing more is promised of the value.
#[verifier::external_body]
pub(crate) fn local_civil_time(epoch_secs: i64) -> (r: Option<CivilTime>)
    ensures
        r matches Some(t) ==> t.wf(),
{
    match chrono::Local.timestamp_opt(epoch_secs, 0).single() {
        Some(dt) => Some(CivilTime {
            year: dt.year(), month: dt.month(), day: dt.day(),
            hour: dt.hour(), minute: dt.minute(), second: dt.second(),
        }),
        None => None,
    }
}

/// The normalized `YYYY-MM-DD HH:MM:SS` text for a Unix timestamp in the
/// host's local time zone.
///
/// `None` when the clock library cannot map the timestamp to a single local
/// time, or when the local year falls outside the four-digit format.
pub fn format_local_timestamp(epoch_secs: i64) -> (r: Option<String>)
    ensures
        r matches Some(s) ==> exists|t: CivilTime|
            t.wf() && 0 <= t.year <= 9999 && s@ == civil_text(t),
{
    match local_civil_time(epoch_secs) {
        Some(t) => {
            let r = format_civil(&t);
            proof {
                if r is Some {
                    assert(t.wf() && 0 <= t.year <= 9999 && r->0@ == civil_text(t));
                }
            }
            r
        },
        None => None,
    }
}

} // verus!

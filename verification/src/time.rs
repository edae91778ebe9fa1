//! Timestamps: converting seconds since the Unix epoch into a
//! `YYYY-MM-DDTHH:MM:SS.mmmZ` string with millisecond precision, including
//! the civil-calendar conversion from a day number to year, month and day.

use vstd::arithmetic::div_mod::lemma_fundamental_div_mod;
use vstd::prelude::*;

use crate::json::{dec_nat, push_char, push_dec_u64};

verus! {

/// Year, month and day of the civil (proleptic Gregorian) calendar for a
/// day count since 1970-01-01, computed era by era: an era is 400 years,
/// 146097 days.
pub open spec fn civil_from_days(days: int) -> (int, int, int) {
    let z = days + 719468;
    let era = z / 146097;
    let doe = z % 146097;
    let yoe = (doe - doe / 1460 + doe / 36524 - doe / 146096) / 365;
    let doy = doe - (365 * yoe + yoe / 4 - yoe / 100);
    let mp = (5 * doy + 2) / 153;
    let d = doy - (153 * mp + 2) / 5 + 1;
    let m = if mp < 10 {
        mp + 3
    } else {
        mp - 9
    };
    let y = yoe + era * 400 + if m <= 2 {
        1int
    } else {
        0int
    };
    (y, m, d)
}

/// Convert days since the Unix epoch to (year, month, day).
pub fn days_to_ymd(days: u64) -> (r: (i64, u64, u64))
    requires
        days <= 0x1_0000_0000_0000,
    ensures
        (r.0 as int, r.1 as int, r.2 as int) == civil_from_days(days as int),
        0 <= r.0,
        1 <= r.1 <= 12,
        1 <= r.2 <= 31,
{
    let z: u64 = days + 719468;
    let era: u64 = z / 146097;
    let doe: u64 = z % 146097;
    let p: u64 = doe / 1460;
    let q: u64 = doe / 36524;
    let g: u64 = doe / 146096;
    proof {
        lemma_fundamental_div_mod(z as int, 146097);
        lemma_fundamental_div_mod(doe as int, 1460);
        lemma_fundamental_div_mod(doe as int, 36524);
        lemma_fundamental_div_mod(doe as int, 146096);
    }
    let x: u64 = doe - p + q - g;
    let yoe: u64 = x / 365;
    let s: u64 = yoe / 4;
    let t: u64 = yoe / 100;
    proof {
        lemma_fundamental_div_mod(x as int, 365);
        lemma_fundamental_div_mod(yoe as int, 4);
        lemma_fundamental_div_mod(yoe as int, 100);
        assert(yoe <= 400);
        assert(365 * yoe + s >= t);
        assert(365 * yoe + s - t <= doe);
    }
    let f: u64 = 365 * yoe + s - t;
    let doy: u64 = doe - f;
    proof {
        assert(doy <= 365);
    }
    let mp: u64 = (5 * doy + 2) / 153;
    let q5: u64 = (153 * mp + 2) / 5;
    proof {
        lemma_fundamental_div_mod((5 * doy + 2) as int, 153);
        lemma_fundamental_div_mod((153 * mp + 2) as int, 5);
        assert(q5 <= doy);
        assert(doy - q5 + 1 <= 31);
    }
    let dd: u64 = doy - q5 + 1;
    let m: u64 = if mp < 10 {
        mp + 3
    } else {
        mp - 9
    };
    let yy: u64 = yoe + era * 400 + if m <= 2 {
        1
    } else {
        0
    };
    let y: i64 = yy as i64;
    (y, m, dd)
}

/// Decimal rendering padded with leading zeros to at least two digits.
pub open spec fn pad2(n: int) -> Seq<char> {
    if n < 10 {
        seq!['0'] + dec_nat(n)
    } else {
        dec_nat(n)
    }
}

/// Decimal rendering padded with leading zeros to at least three digits.
pub open spec fn pad3(n: int) -> Seq<char> {
    if n < 10 {
        seq!['0', '0'] + dec_nat(n)
    } else if n < 100 {
        seq!['0'] + dec_nat(n)
    } else {
        dec_nat(n)
    }
}

/// Decimal rendering padded with leading zeros to at least four digits.
pub open spec fn pad4(n: int) -> Seq<char> {
    if n < 10 {
        seq!['0', '0', '0'] + dec_nat(n)
    } else if n < 100 {
        seq!['0', '0'] + dec_nat(n)
    } else if n < 1000 {
        seq!['0'] + dec_nat(n)
    } else {
        dec_nat(n)
    }
}

fn push_pad2(out: &mut String, n: u64)
    ensures
        final (out)@ == old(out)@ + pad2(n as int),
{
    if n < 10 {
        push_char(out, '0');
    }
    push_dec_u64(out, n);
    proof {
        assert(final (out)@ =~= old(out)@ + pad2(n as int));
    }
}

fn push_pad3(out: &mut String, n: u64)
    ensures
        final (out)@ == old(out)@ + pad3(n as int),
{
    if n < 10 {
        push_char(out, '0');
        push_char(out, '0');
    } else if n < 100 {
        push_char(out, '0');
    }
    push_dec_u64(out, n);
    proof {
        assert(final (out)@ =~= old(out)@ + pad3(n as int));
    }
}

fn push_pad4(out: &mut String, n: u64)
    ensures
        final (out)@ == old(out)@ + pad4(n as int),
{
    if n < 10 {
        push_char(out, '0');
        push_char(out, '0');
        push_char(out, '0');
    } else if n < 100 {
        push_char(out, '0');
        push_char(out, '0');
    } else if n < 1000 {
        push_char(out, '0');
    }
    push_dec_u64(out, n);
    proof {
        assert(final (out)@ =~= old(out)@ + pad4(n as int));
    }
}

/// The `YYYY-MM-DDTHH:MM:SS.mmmZ` rendering of a moment given as whole
/// seconds since the Unix epoch plus sub-second milliseconds.
pub open spec fn timestamp_str(secs: int, millis: int) -> Seq<char> {
    let days = secs / 86400;
    let day_secs = secs % 86400;
    let ymd = civil_from_days(days);
    pad4(ymd.0) + seq!['-'] + pad2(ymd.1) + seq!['-'] + pad2(ymd.2) + seq!['T'] + pad2(
        day_secs / 3600,
    ) + seq![':'] + pad2((day_secs % 3600) / 60) + seq![':'] + pad2(day_secs % 60) + seq!['.']
        + pad3(millis) + seq!['Z']
}

/// Format a moment since the Unix epoch as `YYYY-MM-DDTHH:MM:SS.mmmZ`.
pub fn format_timestamp(secs: u64, millis: u32) -> (out: String)
    requires
        millis < 1000,
    ensures
        out@ == timestamp_str(secs as int, millis as int),
{
    let days: u64 = secs / 86400;
    let day_secs: u64 = secs % 86400;
    proof {
        lemma_fundamental_div_mod(secs as int, 86400);
        lemma_fundamental_div_mod(day_secs as int, 3600);
        lemma_fundamental_div_mod((day_secs % 3600) as int, 60);
        lemma_fundamental_div_mod(day_secs as int, 60);
    }
    let ymd = days_to_ymd(days);
    let hours: u64 = day_secs / 3600;
    let minutes: u64 = (day_secs % 3600) / 60;
    let seconds: u64 = day_secs % 60;
    let mut out = String::new();
    push_pad4(&mut out, ymd.0 as u64);
    push_char(&mut out, '-');
    push_pad2(&mut out, ymd.1);
    push_char(&mut out, '-');
    push_pad2(&mut out, ymd.2);
    push_char(&mut out, 'T');
    push_pad2(&mut out, hours);
    push_char(&mut out, ':');
    push_pad2(&mut out, minutes);
    push_char(&mut out, ':');
    push_pad2(&mut out, seconds);
    push_char(&mut out, '.');
    push_pad3(&mut out, millis as u64);
    push_char(&mut out, 'Z');
    proof {
        assert(out@ =~= timestamp_str(secs as int, millis as int));
    }
    out
}

/// Relies on `SystemTime::now` and `duration_since(UNIX_EPOCH)`: the whole
/// seconds and the sub-second milliseconds of the time elapsed since the
/// Unix epoch, both zero when the clock reads before the epoch. The
/// sub-second part of a `Duration` is below one second.
#[verifier::external_body]
fn now_unix_secs_millis() -> (r: (u64, u32))
    ensures
        r.1 < 1000,
{
    let dur = std::time::SystemTime::now().duration_since(std::time::UNIX_EPOCH).unwrap_or_default();
    (dur.as_secs(), dur.subsec_millis())
}

/// The current moment as an ISO 8601 UTC timestamp with millisecond
/// precision. Whatever the clock returns, the result is the fixed-format
/// rendering of some moment at or after the epoch.
pub fn chrono_now_iso() -> (out: String)
    ensures
        exists|s: int, ms: int|
            0 <= s && 0 <= ms < 1000 && out@ == timestamp_str(s, ms),
{
    let (secs, millis) = now_unix_secs_millis();
    let out = format_timestamp(secs, millis);
    proof {
        let s = secs as int;
        let ms = millis as int;
        assert(0 <= s && 0 <= ms && ms < 1000 && out@ == timestamp_str(s, ms));
    }
    out
}

} // verus!

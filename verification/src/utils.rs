//! Odds and ends: clock readings, datetime formatting, path normalization
//! and directory-entry filtering.
//!
//! The datetime formatters are pure functions of a seconds-since-epoch
//! reading; the one place the machine clock enters is the small trusted
//! wrapper [`now_unix_parts`].

use vstd::prelude::*;
use crate::strutil;
use std::time::{SystemTime, UNIX_EPOCH};

verus! {

/// Seconds since the Unix epoch and the millisecond part, right now.
/// Nothing can be promised of a clock reading beyond the documented bound
/// on the subsecond part.
///
/// Relies on `std::time::SystemTime::now`; `subsec_millis` is documented
/// to lie below 1000. A clock before the epoch reads as zero.
#[verifier::external_body]
pub(crate) fn now_unix_parts() -> (r: (u64, u32))
    ensures
        r.1 < 1000,
{
    match SystemTime::now().duration_since(UNIX_EPOCH) {
        Ok(d) => (d.as_secs(), d.subsec_millis()),
        Err(_) => (0, 0),
    }
}

/// `k` zero characters.
pub open spec fn spec_zeros(k: nat) -> Seq<char>
    decreases k,
{
    if k == 0 {
        Seq::empty()
    } else {
        spec_zeros((k - 1) as nat).push('0')
    }
}

/// `s` left-padded with zeros to width `w` (left alone when already wide
/// enough).
pub open spec fn spec_pad_left(s: Seq<char>, w: nat) -> Seq<char> {
    if s.len() >= w {
        s
    } else {
        spec_zeros((w - s.len()) as nat) + s
    }
}

/// The decimal form of `n`, zero-padded to width `w`.
pub open spec fn spec_dec_pad(n: nat, w: nat) -> Seq<char> {
    spec_pad_left(strutil::spec_dec(n), w)
}

/// Render `n` in decimal, zero-padded to width `w`.
pub fn dec_pad(n: u64, w: usize) -> (r: Vec<char>)
    ensures
        r@ == spec_dec_pad(n as nat, w as nat),
{
    let digits = strutil::u64_to_dec(n);
    let len: usize = digits.len();
    let mut r: Vec<char> = Vec::new();
    if len < w {
        let missing: usize = w - len;
        let mut i: usize = 0;
        while i < missing
            invariant
                i <= missing,
                r@ == spec_zeros(i as nat),
            decreases missing - i,
        {
            r.push('0');
            i = i + 1;
        }
    }
    r.extend_from_slice(digits.as_slice());
    proof {
        if digits@.len() >= w {
            assert(r@ =~= strutil::spec_dec(n as nat));
        } else {
            assert(r@ =~= spec_zeros((w - digits@.len()) as nat) + strutil::spec_dec(n as nat));
        }
    }
    r
}

/// A leap year in the Gregorian calendar.
pub open spec fn spec_is_leap(y: nat) -> bool {
    (y % 4 == 0 && y % 100 != 0) || y % 400 == 0
}

/// The number of days in year `y`.
pub open spec fn spec_year_len(y: nat) -> nat {
    if spec_is_leap(y) {
        366
    } else {
        365
    }
}

/// The number of days in month `m` (zero-based) of year `y`.
pub open spec fn spec_month_len(y: nat, m: nat) -> nat {
    if m == 0 {
        31
    } else if m == 1 {
        if spec_is_leap(y) {
            29
        } else {
            28
        }
    } else if m == 2 {
        31
    } else if m == 3 {
        30
    } else if m == 4 {
        31
    } else if m == 5 {
        30
    } else if m == 6 {
        31
    } else if m == 7 {
        31
    } else if m == 8 {
        30
    } else if m == 9 {
        31
    } else if m == 10 {
        30
    } else {
        31
    }
}

/// The year that day `d` (counted from the start of year `y`) falls in.
pub open spec fn spec_year_of(y: nat, d: nat) -> nat
    decreases d,
{
    if d >= spec_year_len(y) {
        spec_year_of(y + 1, (d - spec_year_len(y)) as nat)
    } else {
        y
    }
}

/// The day offset within the year that day `d` falls in.
pub open spec fn spec_year_rem(y: nat, d: nat) -> nat
    decreases d,
{
    if d >= spec_year_len(y) {
        spec_year_rem(y + 1, (d - spec_year_len(y)) as nat)
    } else {
        d
    }
}

/// The month (zero-based, starting the scan at `m`) that day offset `d` of
/// year `y` falls in.
pub open spec fn spec_month_of(y: nat, m: nat, d: nat) -> nat
    decreases 12 - m,
{
    if m >= 11 {
        m
    } else if d >= spec_month_len(y, m) {
        spec_month_of(y, m + 1, (d - spec_month_len(y, m)) as nat)
    } else {
        m
    }
}

/// The day offset within the month found by [`spec_month_of`].
pub open spec fn spec_month_rem(y: nat, m: nat, d: nat) -> nat
    decreases 12 - m,
{
    if m >= 11 {
        d
    } else if d >= spec_month_len(y, m) {
        spec_month_rem(y, m + 1, (d - spec_month_len(y, m)) as nat)
    } else {
        d
    }
}

/// Civil (year, month, day-offset) parts of a day count since 1970-01-01.
pub open spec fn spec_civil_year(days: nat) -> nat {
    spec_year_of(1970, days)
}

/// The zero-based month of a day count since 1970-01-01.
pub open spec fn spec_civil_month(days: nat) -> nat {
    spec_month_of(spec_civil_year(days), 0, spec_year_rem(1970, days))
}

/// The zero-based day-of-month of a day count since 1970-01-01.
pub open spec fn spec_civil_day(days: nat) -> nat {
    spec_month_rem(spec_civil_year(days), 0, spec_year_rem(1970, days))
}

/// Compute the civil year, zero-based month and zero-based day-of-month of
/// a day count since 1970-01-01.
pub fn civil_from_days(days: u64) -> (r: (u64, u64, u64))
    requires
        days <= 0xFFFF_FFFF_FFFF,
    ensures
        r.0 == spec_civil_year(days as nat),
        r.1 == spec_civil_month(days as nat),
        r.2 == spec_civil_day(days as nat),
        r.0 >= 1970,
        r.0 <= 1970 + days,
        r.1 < 12,
        r.2 < 31,
{
    let mut year: u64 = 1970;
    let mut d: u64 = days;
    loop
        invariant_except_break
            days <= 0xFFFF_FFFF_FFFF,
            1970 <= year,
            year + d <= 1970 + days,
            d <= days,
            spec_year_of(year as nat, d as nat) == spec_civil_year(days as nat),
            spec_year_rem(year as nat, d as nat) == spec_year_rem(1970, days as nat),
        ensures
            days <= 0xFFFF_FFFF_FFFF,
            1970 <= year,
            year + d <= 1970 + days,
            d <= days,
            d < spec_year_len(year as nat),
            spec_year_of(year as nat, d as nat) == spec_civil_year(days as nat),
            spec_year_rem(year as nat, d as nat) == spec_year_rem(1970, days as nat),
        decreases d,
    {
        let len: u64 = if (year % 4 == 0 && year % 100 != 0) || year % 400 == 0 {
            366
        } else {
            365
        };
        proof {
            assert(len == spec_year_len(year as nat));
        }
        if d < len {
            break;
        }
        d = d - len;
        year = year + 1;
    }
    proof {
        assert(spec_year_of(year as nat, d as nat) == year as nat);
        assert(spec_year_rem(year as nat, d as nat) == d as nat);
    }
    proof {
        assert(spec_months_sum(year as nat, 0) == spec_year_len(year as nat)) by {
            assert(spec_months_sum(year as nat, 12) == 0);
            assert(spec_months_sum(year as nat, 11) == 31);
            assert(spec_months_sum(year as nat, 10) == 61);
            assert(spec_months_sum(year as nat, 9) == 92);
            assert(spec_months_sum(year as nat, 8) == 122);
            assert(spec_months_sum(year as nat, 7) == 153);
            assert(spec_months_sum(year as nat, 6) == 184);
            assert(spec_months_sum(year as nat, 5) == 214);
            assert(spec_months_sum(year as nat, 4) == 245);
            assert(spec_months_sum(year as nat, 3) == 275);
            assert(spec_months_sum(year as nat, 2) == 306);
            assert(spec_months_sum(year as nat, 1) == spec_month_len(year as nat, 1) + 306);
            assert(spec_months_sum(year as nat, 0) == 31 + spec_months_sum(year as nat, 1));
            if spec_is_leap(year as nat) {
                assert(spec_month_len(year as nat, 1) == 29);
            } else {
                assert(spec_month_len(year as nat, 1) == 28);
            }
        }
    }
    let mut month: u64 = 0;
    let ghost rem0: nat = d as nat;
    while month < 11 && d >= month_len(year, month)
        invariant
            month <= 11,
            d <= days,
            days <= 0xFFFF_FFFF_FFFF,
            (d as nat) < spec_months_sum(year as nat, month as nat),
            spec_month_of(year as nat, month as nat, d as nat) == spec_month_of(
                year as nat,
                0,
                rem0,
            ),
            spec_month_rem(year as nat, month as nat, d as nat) == spec_month_rem(
                year as nat,
                0,
                rem0,
            ),
        decreases 11 - month,
    {
        let len = month_len(year, month);
        d = d - len;
        month = month + 1;
    }
    proof {
        assert(spec_month_of(year as nat, month as nat, d as nat) == month as nat);
        assert(spec_month_rem(year as nat, month as nat, d as nat) == d as nat);
    }
    (year, month, d)
}

/// The number of days in month `m` (zero-based) of year `y`.
pub fn month_len(y: u64, m: u64) -> (r: u64)
    ensures
        r == spec_month_len(y as nat, m as nat),
{
    if m == 0 {
        31
    } else if m == 1 {
        if (y % 4 == 0 && y % 100 != 0) || y % 400 == 0 {
            29
        } else {
            28
        }
    } else if m == 2 {
        31
    } else if m == 3 {
        30
    } else if m == 4 {
        31
    } else if m == 5 {
        30
    } else if m == 6 {
        31
    } else if m == 7 {
        31
    } else if m == 8 {
        30
    } else if m == 9 {
        31
    } else if m == 10 {
        30
    } else {
        31
    }
}

/// The fixed three-letter name of month `m` (zero-based; months past
/// December read as December).
pub open spec fn spec_month_name(m: nat) -> Seq<char> {
    if m == 0 {
        "Jan"@
    } else if m == 1 {
        "Feb"@
    } else if m == 2 {
        "Mar"@
    } else if m == 3 {
        "Apr"@
    } else if m == 4 {
        "May"@
    } else if m == 5 {
        "Jun"@
    } else if m == 6 {
        "Jul"@
    } else if m == 7 {
        "Aug"@
    } else if m == 8 {
        "Sep"@
    } else if m == 9 {
        "Oct"@
    } else if m == 10 {
        "Nov"@
    } else {
        "Dec"@
    }
}

/// The three-letter month name.
pub fn month_name(m: u64) -> (r: &'static str)
    ensures
        r@ == spec_month_name(m as nat),
{
    if m == 0 {
        "Jan"
    } else if m == 1 {
        "Feb"
    } else if m == 2 {
        "Mar"
    } else if m == 3 {
        "Apr"
    } else if m == 4 {
        "May"
    } else if m == 5 {
        "Jun"
    } else if m == 6 {
        "Jul"
    } else if m == 7 {
        "Aug"
    } else if m == 8 {
        "Sep"
    } else if m == 9 {
        "Oct"
    } else {
        if m == 10 {
            "Nov"
        } else {
            "Dec"
        }
    }
}

/// Zeller's congruence on a (1-based) day, (zero-based) month and year:
/// an index into the weekday table, where 0 is Saturday.
pub open spec fn spec_weekday_index(year: nat, month: nat, day: nat) -> nat {
    let m: nat = if month + 1 <= 2 {
        month + 13
    } else {
        month + 1
    };
    let y: nat = if month + 1 <= 2 {
        (year - 1) as nat
    } else {
        year
    };
    let k = y % 100;
    let j = y / 100;
    (day + ((13 * (m + 1)) / 5) + k + k / 4 + j / 4 + 5 * j) % 7
}

/// The weekday name for a Zeller index (0 is Saturday).
pub open spec fn spec_weekday_name(h: nat) -> Seq<char> {
    if h == 0 {
        "Sat"@
    } else if h == 1 {
        "Sun"@
    } else if h == 2 {
        "Mon"@
    } else if h == 3 {
        "Tue"@
    } else if h == 4 {
        "Wed"@
    } else {
        if h == 5 {
            "Thu"@
        } else {
            "Fri"@
        }
    }
}

/// Helpers around directory listings, paths, clock readings and their
/// textual forms.
#[derive(Debug)]
pub struct Utils;

impl Utils {
    /// A directory entry is listed unless its name starts with a dot.
    pub fn is_valid_entry(name: &str) -> (r: bool)
        ensures
            r == !(name@.len() > 0 && name@[0] == '.'),
    {
        let n: usize = name.unicode_len();
        if n == 0 {
            return true;
        }
        name.get_char(0) != '.'
    }

    /// Seconds since the Unix epoch, in decimal.
    pub fn unix_timestamp() -> (r: String)
        ensures
            exists|t: u64| r@ == strutil::spec_dec(t as nat),
    {
        let (secs, _millis) = now_unix_parts();
        let r = strutil::u64_to_string(secs);
        proof {
            assert(r@ == strutil::spec_dec(secs as nat));
        }
        r
    }

    /// The compact `YYYY-MM-DD HH:MM:SS` form of a clock reading, as the
    /// log lines carry it. The date part uses flat 365-day years and
    /// 30-day months; it is a label, not a civil date.
    pub fn log_datetime_of(secs: u64) -> (r: String)
        ensures
            r@ == spec_log_datetime(secs),
    {
        let days: u64 = secs / 86400;
        let hours: u64 = (secs % 86400) / 3600;
        let minutes: u64 = (secs % 3600) / 60;
        let seconds: u64 = secs % 60;
        let mut out: Vec<char> = Vec::new();
        let p1 = dec_pad(1970 + days / 365, 4);
        let p2 = dec_pad((days % 365) / 30 + 1, 2);
        let p3 = dec_pad(days % 30 + 1, 2);
        let p4 = dec_pad(hours, 2);
        let p5 = dec_pad(minutes, 2);
        let p6 = dec_pad(seconds, 2);
        out.extend_from_slice(p1.as_slice());
        out.push('-');
        out.extend_from_slice(p2.as_slice());
        out.push('-');
        out.extend_from_slice(p3.as_slice());
        out.push(' ');
        out.extend_from_slice(p4.as_slice());
        out.push(':');
        out.extend_from_slice(p5.as_slice());
        out.push(':');
        out.extend_from_slice(p6.as_slice());
        proof {
            assert(out@ =~= spec_log_datetime(secs));
        }
        strutil::string_from_chars(&out)
    }

    /// The compact timestamp of the clock's current reading.
    pub fn log_datetime() -> (r: String)
        ensures
            exists|t: u64| r@ == spec_log_datetime(t),
    {
        let (secs, _millis) = now_unix_parts();
        let r = Self::log_datetime_of(secs);
        proof {
            assert(r@ == spec_log_datetime(secs));
        }
        r
    }

    /// The `YYYY-MM-DDTHH:MM:SS.mmmZ` form of a clock reading, on the
    /// civil calendar.
    #[verifier::rlimit(50)]
    pub fn datetime_rfc_8601_of(secs: u64, millis: u32) -> (r: String)
        ensures
            r@ == spec_rfc_8601(secs, millis),
    {
        let days: u64 = secs / 86400;
        let (year, month, day0) = civil_from_days(days);
        let sod: u64 = secs % 86400;
        let hours: u64 = (sod / 3600) % 24;
        let minutes: u64 = (sod % 3600) / 60;
        let seconds: u64 = sod % 60;
        let mut out: Vec<char> = Vec::new();
        let p1 = dec_pad(year, 4);
        let p2 = dec_pad(month + 1, 2);
        let p3 = dec_pad(day0 + 1, 2);
        let p4 = dec_pad(hours, 2);
        let p5 = dec_pad(minutes, 2);
        let p6 = dec_pad(seconds, 2);
        let p7 = dec_pad(millis as u64, 3);
        out.extend_from_slice(p1.as_slice());
        out.push('-');
        out.extend_from_slice(p2.as_slice());
        out.push('-');
        out.extend_from_slice(p3.as_slice());
        out.push('T');
        out.extend_from_slice(p4.as_slice());
        out.push(':');
        out.extend_from_slice(p5.as_slice());
        out.push(':');
        out.extend_from_slice(p6.as_slice());
        out.push('.');
        out.extend_from_slice(p7.as_slice());
        out.push('Z');
        proof {
            assert(out@ =~= spec_rfc_8601(secs, millis));
        }
        strutil::string_from_chars(&out)
    }

    /// The ISO-style timestamp of the clock's current reading.
    pub fn datetime_rfc_8601() -> (r: String)
        ensures
            exists|t: u64, ms: u32| r@ == spec_rfc_8601(t, ms),
    {
        let (secs, millis) = now_unix_parts();
        let r = Self::datetime_rfc_8601_of(secs, millis);
        proof {
            assert(r@ == spec_rfc_8601(secs, millis));
        }
        r
    }

    /// The RFC-1123 form of a clock reading: weekday, civil date, time of
    /// day and the fixed `GMT` zone, as the `Date` header carries it.
    #[verifier::rlimit(50)]
    pub fn datetime_rfc_1123_of(secs: u64) -> (r: String)
        ensures
            r@ == spec_rfc_1123(secs),
    {
        let days: u64 = secs / 86400;
        let (year, month, day0) = civil_from_days(days);
        let day: u64 = day0 + 1;
        let sod: u64 = secs % 86400;
        let hours: u64 = (sod / 3600) % 24;
        let minutes: u64 = (sod % 3600) / 60;
        let seconds: u64 = sod % 60;
        let mm: u64 = if month + 1 <= 2 {
            month + 13
        } else {
            month + 1
        };
        let yy: u64 = if month + 1 <= 2 {
            year - 1
        } else {
            year
        };
        let k: u64 = yy % 100;
        let j: u64 = yy / 100;
        let h: u64 = (day + ((13 * (mm + 1)) / 5) + k + k / 4 + j / 4 + 5 * j) % 7;
        let h: u64 = (h + 7) % 7;
        let weekday: &'static str = if h == 0 {
            "Sat"
        } else if h == 1 {
            "Sun"
        } else if h == 2 {
            "Mon"
        } else if h == 3 {
            "Tue"
        } else if h == 4 {
            "Wed"
        } else if h == 5 {
            "Thu"
        } else {
            "Fri"
        };
        proof {
            assert(h as nat == spec_weekday_index(year as nat, month as nat, day as nat));
            assert(weekday@ == spec_weekday_name(
                spec_weekday_index(year as nat, month as nat, day as nat),
            ));
        }
        let mut out: Vec<char> = Vec::new();
        let wd = strutil::chars_of(weekday);
        let p_day = dec_pad(day, 2);
        let mon = strutil::chars_of(month_name(month));
        let p_year = dec_pad(year, 4);
        let p_h = dec_pad(hours, 2);
        let p_m = dec_pad(minutes, 2);
        let p_s = dec_pad(seconds, 2);
        out.extend_from_slice(wd.as_slice());
        out.push(',');
        out.push(' ');
        out.extend_from_slice(p_day.as_slice());
        out.push(' ');
        out.extend_from_slice(mon.as_slice());
        out.push(' ');
        out.extend_from_slice(p_year.as_slice());
        out.push(' ');
        out.extend_from_slice(p_h.as_slice());
        out.push(':');
        out.extend_from_slice(p_m.as_slice());
        out.push(':');
        out.extend_from_slice(p_s.as_slice());
        out.push(' ');
        out.push('G');
        out.push('M');
        out.push('T');
        proof {
            reveal_strlit(" GMT");
            assert(" GMT"@.len() == 4 && " GMT"@[0] == ' ' && " GMT"@[1] == 'G' && " GMT"@[2]
                == 'M' && " GMT"@[3] == 'T');
            reveal_strlit(", ");
            assert(", "@.len() == 2 && ", "@[0] == ',' && ", "@[1] == ' ');
            assert(out@ =~= spec_rfc_1123(secs));
        }
        strutil::string_from_chars(&out)
    }

    /// The RFC-1123 timestamp of the clock's current reading.
    pub fn datetime_rfc_1123() -> (r: String)
        ensures
            exists|t: u64| r@ == spec_rfc_1123(t),
    {
        let (secs, _millis) = now_unix_parts();
        let r = Self::datetime_rfc_1123_of(secs);
        proof {
            assert(r@ == spec_rfc_1123(secs));
        }
        r
    }

    /// Normalize a relative path textually: backslashes become slashes,
    /// empty and `.` segments vanish, and a `..` segment removes the
    /// segment before it.
    pub fn normalize_path(path: &str) -> (r: String)
        ensures
            r@ == spec_normalize_path(path@),
    {
        let cs = strutil::chars_of(path);
        let backslash = strutil::chars_of("\\");
        let slash = strutil::chars_of("/");
        proof {
            reveal_strlit("\\");
            assert("\\"@.len() == 1);
        }
        let unified = strutil::replace_chars(&cs, &backslash, &slash);
        let parts = strutil::split_char(&unified, '/');
        let ghost pseq = strutil::split_on(unified@, '/');
        let n: usize = parts.len();
        let mut stack: Vec<Vec<char>> = Vec::new();
        let ghost mut mirror: Seq<Seq<char>> = Seq::empty();
        let mut i: usize = 0;
        proof {
            reveal_strlit(".");
            reveal_strlit("..");
            assert("."@.len() == 1 && "."@[0] == '.');
            assert(".."@.len() == 2 && ".."@[0] == '.' && ".."@[1] == '.');
            assert(spec_norm_parts(pseq.take(0)) =~= Seq::<Seq<char>>::empty());
        }
        while i < n
            invariant
                n == parts@.len(),
                n == pseq.len(),
                forall|j: int| 0 <= j < n ==> #[trigger] parts@[j]@ == pseq[j],
                i <= n,
                "."@ =~= seq!['.'],
                ".."@ =~= seq!['.', '.'],
                mirror == spec_norm_parts(pseq.take(i as int)),
                mirror.len() == stack@.len(),
                forall|j: int| 0 <= j < stack@.len() ==> #[trigger] stack@[j]@ == mirror[j],
            decreases n - i,
        {
            let part = &parts[i];
            let plen: usize = part.len();
            proof {
                assert(pseq.take(i as int + 1).drop_last() =~= pseq.take(i as int));
                assert(pseq.take(i as int + 1).last() == pseq[i as int]);
            }
            if plen == 0 || (plen == 1 && part[0] == '.') {
                proof {
                    if plen == 1 {
                        assert(part@ =~= "."@);
                    }
                }
            } else if plen == 2 && part[0] == '.' && part[1] == '.' {
                proof {
                    assert(part@ =~= ".."@);
                }
                if stack.len() > 0 {
                    stack.pop();
                    proof {
                        mirror = mirror.drop_last();
                        assert(stack@.map_values(|p: Vec<char>| p@) =~= mirror.map_values(
                            |p: Seq<char>| p,
                        ));
                    }
                } else {
                    proof {
                        assert(mirror.len() == 0);
                    }
                }
            } else {
                proof {
                    assert(part@.len() != 0);
                    assert(part@ != "."@) by {
                        if part@ == "."@ {
                            assert(part@.len() == 1);
                            assert(part@[0] == '.');
                        }
                    }
                    assert(part@ != ".."@) by {
                        if part@ == ".."@ {
                            assert(part@.len() == 2);
                            assert(part@[0] == '.' && part@[1] == '.');
                        }
                    }
                    mirror = mirror.push(pseq[i as int]);
                }
                let piece = strutil::subvec(part, 0, plen);
                proof {
                    assert(piece@ =~= part@);
                }
                stack.push(piece);
            }
            i = i + 1;
        }
        proof {
            assert(pseq.take(n as int) =~= pseq);
        }
        let m: usize = stack.len();
        let mut out: Vec<char> = Vec::new();
        let mut k: usize = 0;
        proof {
            assert(spec_join_slash(mirror.take(0)) =~= Seq::<char>::empty());
        }
        while k < m
            invariant
                m == stack@.len(),
                m == mirror.len(),
                forall|j: int| 0 <= j < m ==> #[trigger] stack@[j]@ == mirror[j],
                k <= m,
                out@ == spec_join_slash(mirror.take(k as int)),
            decreases m - k,
        {
            if k > 0 {
                out.push('/');
            }
            out.extend_from_slice(stack[k].as_slice());
            proof {
                assert(mirror.take(k as int + 1).drop_last() =~= mirror.take(k as int));
                assert(mirror.take(k as int + 1).last() == mirror[k as int]);
                if k == 0 {
                    assert(out@ =~= spec_join_slash(mirror.take(1)));
                }
            }
            k = k + 1;
        }
        proof {
            assert(mirror.take(m as int) =~= mirror);
        }
        let has_root = unified.len() > 0 && unified[0] == '/';
        let mut full: Vec<char> = Vec::new();
        if has_root {
            full.push('/');
        }
        full.extend_from_slice(out.as_slice());
        proof {
            if has_root {
                assert(full@ =~= seq!['/'] + out@);
            } else {
                assert(full@ =~= out@);
            }
        }
        strutil::string_from_chars(&full)
    }

    /// A path with every backslash turned into a forward slash, for
    /// display.
    pub fn path_prettifier(path: &str) -> (r: String)
        ensures
            r@ == strutil::spec_replace(path@, "\\"@, "/"@),
    {
        let cs = strutil::chars_of(path);
        let backslash = strutil::chars_of("\\");
        let slash = strutil::chars_of("/");
        proof {
            reveal_strlit("\\");
            assert("\\"@.len() == 1);
        }
        let replaced = strutil::replace_chars(&cs, &backslash, &slash);
        strutil::string_from_chars(&replaced)
    }
}

/// The days of the months from `m` (zero-based) to the end of year `y`.
pub open spec fn spec_months_sum(y: nat, m: nat) -> nat
    decreases 12 - m,
{
    if m >= 12 {
        0
    } else {
        spec_month_len(y, m) + spec_months_sum(y, m + 1)
    }
}

/// The `YYYY-MM-DDTHH:MM:SS.mmmZ` form of `secs` and `millis` on the civil
/// calendar, each field zero-padded.
pub open spec fn spec_rfc_8601(secs: u64, millis: u32) -> Seq<char> {
    let days = (secs as nat) / 86400;
    let sod = (secs as nat) % 86400;
    spec_dec_pad(spec_civil_year(days), 4) + seq!['-'] + spec_dec_pad(spec_civil_month(days) + 1, 2)
        + seq!['-'] + spec_dec_pad(spec_civil_day(days) + 1, 2) + seq!['T'] + spec_dec_pad(
        (sod / 3600) % 24,
        2,
    ) + seq![':'] + spec_dec_pad((sod % 3600) / 60, 2) + seq![':'] + spec_dec_pad(sod % 60, 2)
        + seq!['.'] + spec_dec_pad(millis as nat, 3) + seq!['Z']
}

/// The RFC-1123 form of `secs`: weekday, day, month name, year, time of
/// day, and the fixed `GMT` zone.
pub open spec fn spec_rfc_1123(secs: u64) -> Seq<char> {
    let days = (secs as nat) / 86400;
    let sod = (secs as nat) % 86400;
    let year = spec_civil_year(days);
    let month = spec_civil_month(days);
    let day = spec_civil_day(days) + 1;
    spec_weekday_name(spec_weekday_index(year, month, day)) + ", "@ + spec_dec_pad(day, 2)
        + seq![' '] + spec_month_name(month) + seq![' '] + spec_dec_pad(year, 4) + seq![' ']
        + spec_dec_pad((sod / 3600) % 24, 2) + seq![':'] + spec_dec_pad((sod % 3600) / 60, 2)
        + seq![':'] + spec_dec_pad(sod % 60, 2) + " GMT"@
}

/// Drop empty and `.` segments; a `..` segment removes the segment before
/// it (or nothing, at the start).
pub open spec fn spec_norm_parts(parts: Seq<Seq<char>>) -> Seq<Seq<char>>
    decreases parts.len(),
{
    if parts.len() == 0 {
        Seq::empty()
    } else {
        let rest = spec_norm_parts(parts.drop_last());
        let last = parts.last();
        if last.len() == 0 || last == "."@ {
            rest
        } else if last == ".."@ {
            if rest.len() > 0 {
                rest.drop_last()
            } else {
                rest
            }
        } else {
            rest.push(last)
        }
    }
}

/// Segments joined with `/`.
pub open spec fn spec_join_slash(parts: Seq<Seq<char>>) -> Seq<char>
    decreases parts.len(),
{
    if parts.len() == 0 {
        Seq::empty()
    } else if parts.len() == 1 {
        parts[0]
    } else {
        spec_join_slash(parts.drop_last()) + seq!['/'] + parts.last()
    }
}

/// Textual normalization of a path: separators unified to `/`, empty and
/// `.` segments dropped, `..` resolved against the segment before it, and
/// a leading slash kept.
pub open spec fn spec_normalize_path(s: Seq<char>) -> Seq<char> {
    let unified = strutil::spec_replace(s, "\\"@, "/"@);
    let joined = spec_join_slash(spec_norm_parts(strutil::split_on(unified, '/')));
    if unified.len() > 0 && unified[0] == '/' {
        seq!['/'] + joined
    } else {
        joined
    }
}

/// The `YYYY-MM-DD HH:MM:SS` form of `secs`: flat 365-day years and 30-day
/// months, each field zero-padded.
pub open spec fn spec_log_datetime(secs: u64) -> Seq<char> {
    let days = (secs as nat) / 86400;
    let hours = ((secs as nat) % 86400) / 3600;
    let minutes = ((secs as nat) % 3600) / 60;
    let seconds = (secs as nat) % 60;
    spec_dec_pad(1970 + days / 365, 4) + seq!['-'] + spec_dec_pad((days % 365) / 30 + 1, 2)
        + seq!['-'] + spec_dec_pad(days % 30 + 1, 2) + seq![' '] + spec_dec_pad(hours, 2)
        + seq![':'] + spec_dec_pad(minutes, 2) + seq![':'] + spec_dec_pad(seconds, 2)
}

} // verus!

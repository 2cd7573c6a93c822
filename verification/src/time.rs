//! Calendar arithmetic: civil dates to Unix timestamps.
//!
//! Timestamps are computed for a fixed UTC+8 zone where the records
//! live, except for the filter compiler's date literals, which are UTC.

use vstd::prelude::*;

use crate::parse::{digits_val, is_digit};
use crate::value::pow10;

verus! {

/// Whether `y` is a leap year of the Gregorian calendar.
pub open spec fn is_leap(y: int) -> bool {
    (y % 4 == 0 && y % 100 != 0) || y % 400 == 0
}

/// The number of days of month `m` of year `y`.
pub open spec fn days_in_month(y: int, m: int) -> int {
    if m == 2 {
        if is_leap(y) {
            29
        } else {
            28
        }
    } else if m == 4 || m == 6 || m == 9 || m == 11 {
        30
    } else {
        31
    }
}

/// The year a date in month `m` of year `y` belongs to when the year is
/// taken to start in March.
pub open spec fn shifted_year(y: int, m: int) -> int {
    if m <= 2 {
        y - 1
    } else {
        y
    }
}

/// The day of the March-based year, counted from zero.
pub open spec fn day_of_marchyear(m: int, d: int) -> int {
    (153 * (if m > 2 {
        m - 3
    } else {
        m + 9
    }) + 2) / 5 + d - 1
}

/// The day of the 400-year era, counted from zero.
pub open spec fn day_of_era(y: int, m: int, d: int) -> int {
    (shifted_year(y, m) % 400) * 365 + (shifted_year(y, m) % 400) / 4 - (shifted_year(y, m) % 400)
        / 100 + day_of_marchyear(m, d)
}

/// Days from 1970-01-01 to the civil date `y-m-d` (Hinnant's formula).
pub open spec fn days_from_civil(y: int, m: int, d: int) -> int {
    (shifted_year(y, m) / 400) * 146097 + day_of_era(y, m, d) - 719468
}

/// The Unix timestamp of `y-m-d hh:mm:ss` UTC.
pub open spec fn epoch_secs(y: int, m: int, d: int, hh: int, mm: int, ss: int) -> int {
    days_from_civil(y, m, d) * 86400 + hh * 3600 + mm * 60 + ss
}

/// Whether the nineteen characters of `s` spell `YYYY-MM-DD HH:MM:SS` with a
/// valid date of years one through 9999 and a valid time of day.
pub open spec fn is_datetime(s: Seq<char>) -> bool {
    &&& s.len() == 19
    &&& (forall|i: int|
        0 <= i < 19 && i != 4 && i != 7 && i != 10 && i != 13 && i != 16 ==> is_digit(
            #[trigger] s[i],
        ))
    &&& s[4] == '-'
    &&& s[7] == '-'
    &&& s[10] == ' '
    &&& s[13] == ':'
    &&& s[16] == ':'
    &&& 1 <= digits_val(s, 0, 4)
    &&& 1 <= digits_val(s, 5, 7) <= 12
    &&& 1 <= digits_val(s, 8, 10) <= days_in_month(digits_val(s, 0, 4), digits_val(s, 5, 7))
    &&& digits_val(s, 11, 13) <= 23
    &&& digits_val(s, 14, 16) <= 59
    &&& digits_val(s, 17, 19) <= 59
}

/// The Unix timestamp a well-formed `YYYY-MM-DD HH:MM:SS` text denotes, UTC.
pub open spec fn datetime_secs(s: Seq<char>) -> int {
    epoch_secs(
        digits_val(s, 0, 4),
        digits_val(s, 5, 7),
        digits_val(s, 8, 10),
        digits_val(s, 11, 13),
        digits_val(s, 14, 16),
        digits_val(s, 17, 19),
    )
}

/// Whether the ten characters of `s` spell `YYYY-MM-DD` with a valid date.
pub open spec fn is_date(s: Seq<char>) -> bool {
    &&& s.len() == 10
    &&& (forall|i: int|
        0 <= i < 10 && i != 4 && i != 7 ==> is_digit(#[trigger] s[i]))
    &&& s[4] == '-'
    &&& s[7] == '-'
    &&& 1 <= digits_val(s, 0, 4)
    &&& 1 <= digits_val(s, 5, 7) <= 12
    &&& 1 <= digits_val(s, 8, 10) <= days_in_month(digits_val(s, 0, 4), digits_val(s, 5, 7))
}

/// Reads the fixed-width digit run `s[i..j]`.
fn read_digits(s: &str, len: usize, i: usize, j: usize) -> (r: Option<u64>)
    requires
        len == s@.len(),
        i <= j <= len,
        j - i <= 4,
    ensures
        match r {
            Some(v) => (forall|k: int| i <= k < j ==> is_digit(#[trigger] s@[k])) && v
                == digits_val(s@, i as nat, j as nat) && v <= 9999,
            None => !(forall|k: int| i <= k < j ==> is_digit(#[trigger] s@[k])),
        },
{
    let mut acc: u64 = 0;
    let mut k = i;
    while k < j
        invariant
            i <= k <= j <= len,
            len == s@.len(),
            j - i <= 4,
            forall|kk: int| i <= kk < k ==> is_digit(#[trigger] s@[kk]),
            acc == digits_val(s@, i as nat, k as nat),
            acc <= 9999,
        decreases j - k,
    {
        let c = s.get_char(k);
        if !('0' <= c && c <= '9') {
            return None;
        }
        proof {
            crate::parse::lemma_digits_val_bound(s@, i as nat, (k + 1) as nat);
            crate::value::lemma_pow10_le20();
            crate::value::lemma_pow10_mono_pub((k + 1 - i) as nat, 4);
            assert(pow10(4) == 10000) by {
                reveal_with_fuel(crate::value::pow10, 5);
            }
        }
        acc = acc * 10 + ((c as u32 as u64) - 48);
        k = k + 1;
    }
    Some(acc)
}

/// Days from the epoch to `y-m-d`, executable.
fn days_from_civil_exec(y: u64, m: u64, d: u64) -> (r: i64)
    requires
        1 <= y <= 9999,
        1 <= m <= 12,
        1 <= d <= 31,
    ensures
        r == days_from_civil(y as int, m as int, d as int),
        -719468 <= r <= 3700000,
{
    let sy: u64 = if m <= 2 {
        y - 1
    } else {
        y
    };
    let era: u64 = sy / 400;
    let yoe: u64 = sy % 400;
    let mp: u64 = if m > 2 {
        m - 3
    } else {
        m + 9
    };
    let doy: u64 = (153 * mp + 2) / 5 + d - 1;
    let doe: u64 = yoe * 365 + yoe / 4 - yoe / 100 + doy;
    let days: i64 = (era * 146097 + doe) as i64 - 719468;
    days
}

/// The Unix timestamp of a `YYYY-MM-DD HH:MM:SS` text, UTC; `None` when the
/// text is not a valid datetime.
pub fn parse_datetime(s: &str) -> (r: Option<i64>)
    ensures
        match r {
            Some(t) => is_datetime(s@) && t == datetime_secs(s@) && -63000000000 <= t
                <= 320000000000,
            None => !is_datetime(s@),
        },
{
    let len = s.unicode_len();
    if len != 19 {
        return None;
    }
    if !(s.get_char(4) == '-' && s.get_char(7) == '-' && s.get_char(10) == ' ' && s.get_char(13)
        == ':' && s.get_char(16) == ':') {
        return None;
    }
    let y = match read_digits(s, len, 0, 4) {
        Some(v) => v,
        None => {
            return None;
        },
    };
    let mo = match read_digits(s, len, 5, 7) {
        Some(v) => v,
        None => {
            return None;
        },
    };
    let d = match read_digits(s, len, 8, 10) {
        Some(v) => v,
        None => {
            return None;
        },
    };
    let hh = match read_digits(s, len, 11, 13) {
        Some(v) => v,
        None => {
            return None;
        },
    };
    let mm = match read_digits(s, len, 14, 16) {
        Some(v) => v,
        None => {
            return None;
        },
    };
    let ss = match read_digits(s, len, 17, 19) {
        Some(v) => v,
        None => {
            return None;
        },
    };
    if y < 1 || mo < 1 || mo > 12 || d < 1 || hh > 23 || mm > 59 || ss > 59 {
        return None;
    }
    let dim: u64 = if mo == 2 {
        if (y % 4 == 0 && y % 100 != 0) || y % 400 == 0 {
            29
        } else {
            28
        }
    } else if mo == 4 || mo == 6 || mo == 9 || mo == 11 {
        30
    } else {
        31
    };
    if d > dim {
        return None;
    }
    let days = days_from_civil_exec(y, mo, d);
    Some(days * 86400 + (hh * 3600 + mm * 60 + ss) as i64)
}

/// The Unix timestamps of the first and the last second of the day `date`
/// (`YYYY-MM-DD`), in the fixed UTC+8 zone the records live in.
pub fn date_to_unixtime_range(date: &str) -> (r: (i64, i64))
    requires
        is_date(date@),
    ensures
        r.0 == days_from_civil(
            digits_val(date@, 0, 4),
            digits_val(date@, 5, 7),
            digits_val(date@, 8, 10),
        ) * 86400 - 28800,
        r.1 == r.0 + 86399,
{
    let len = date.unicode_len();
    let y = match read_digits(date, len, 0, 4) {
        Some(v) => v,
        None => {
            proof {
                assert(false);
            }
            0
        },
    };
    let mo = match read_digits(date, len, 5, 7) {
        Some(v) => v,
        None => {
            proof {
                assert(false);
            }
            0
        },
    };
    let d = match read_digits(date, len, 8, 10) {
        Some(v) => v,
        None => {
            proof {
                assert(false);
            }
            0
        },
    };
    let days = days_from_civil_exec(y, mo, d);
    let start = days * 86400 - 28800;
    (start, start + 86399)
}

} // verus!

verus! {

/// Days since the epoch of the civil day containing `t`, in the fixed
/// UTC+8 zone, shifted to Hinnant's era origin.
pub open spec fn shifted_days(t: int) -> int {
    (t + 28800) / 86400 + 719468
}

/// The 400-year era of the day.
pub open spec fn era_of(t: int) -> int {
    shifted_days(t) / 146097
}

/// The day of the era.
pub open spec fn doe_of(t: int) -> int {
    shifted_days(t) - era_of(t) * 146097
}

/// The year of the era.
pub open spec fn yoe_of(t: int) -> int {
    (doe_of(t) - doe_of(t) / 1460 + doe_of(t) / 36524 - doe_of(t) / 146096) / 365
}

/// The day of the March-based year.
pub open spec fn doy_of(t: int) -> int {
    doe_of(t) - (365 * yoe_of(t) + yoe_of(t) / 4 - yoe_of(t) / 100)
}

/// The March-based month number.
pub open spec fn mp_of(t: int) -> int {
    (5 * doy_of(t) + 2) / 153
}

/// The day of the month.
pub open spec fn day_of(t: int) -> int {
    doy_of(t) - (153 * mp_of(t) + 2) / 5 + 1
}

/// The month.
pub open spec fn month_of(t: int) -> int {
    if mp_of(t) < 10 {
        mp_of(t) + 3
    } else {
        mp_of(t) - 9
    }
}

/// The year.
pub open spec fn year_of(t: int) -> int {
    yoe_of(t) + era_of(t) * 400 + (if month_of(t) <= 2 {
        1int
    } else {
        0int
    })
}

/// The hour, minute and second of the day.
pub open spec fn hour_of(t: int) -> int {
    ((t + 28800) % 86400) / 3600
}

/// The minute of the hour.
pub open spec fn minute_of(t: int) -> int {
    (((t + 28800) % 86400) % 3600) / 60
}

/// The second of the minute.
pub open spec fn second_of(t: int) -> int {
    ((t + 28800) % 86400) % 60
}

/// `n` in decimal, left-padded with zeros to two places.
pub open spec fn pad2(n: int) -> Seq<char> {
    if n < 10 {
        seq!['0'] + crate::local::dec_str(n)
    } else {
        crate::local::dec_str(n)
    }
}

/// `n` in decimal, left-padded with zeros to four places.
pub open spec fn pad4(n: int) -> Seq<char> {
    if n < 10 {
        seq!['0', '0', '0'] + crate::local::dec_str(n)
    } else if n < 100 {
        seq!['0', '0'] + crate::local::dec_str(n)
    } else if n < 1000 {
        seq!['0'] + crate::local::dec_str(n)
    } else {
        crate::local::dec_str(n)
    }
}

/// The `YYYY-MM-DD HH:MM:SS` rendering of `t` in the fixed UTC+8 zone.
pub open spec fn spec_date_text(t: int) -> Seq<char> {
    pad4(year_of(t)) + seq!['-'] + pad2(month_of(t)) + seq!['-'] + pad2(day_of(t)) + seq![' ']
        + pad2(hour_of(t)) + seq![':'] + pad2(minute_of(t)) + seq![':'] + pad2(second_of(t))
}

/// `n` in decimal, left-padded to two places.
fn pad2_exec(n: u64) -> (r: String)
    requires
        n <= 9999,
    ensures
        r@ == pad2(n as int),
{
    if n < 10 {
        let d = crate::local::fmt_u32(n as u32);
        let r = String::from_str("0").concat(d.as_str());
        proof {
            reveal_strlit("0");
            assert(r@ =~= pad2(n as int));
        }
        r
    } else {
        crate::local::fmt_u32(n as u32)
    }
}

/// `n` in decimal, left-padded to four places.
fn pad4_exec(n: u64) -> (r: String)
    requires
        n <= 9999,
    ensures
        r@ == pad4(n as int),
{
    proof {
        reveal_strlit("000");
        reveal_strlit("00");
        reveal_strlit("0");
    }
    if n < 10 {
        let r = String::from_str("000").concat(crate::local::fmt_u32(n as u32).as_str());
        proof {
            assert(r@ =~= pad4(n as int));
        }
        r
    } else if n < 100 {
        let r = String::from_str("00").concat(crate::local::fmt_u32(n as u32).as_str());
        proof {
            assert(r@ =~= pad4(n as int));
        }
        r
    } else if n < 1000 {
        let r = String::from_str("0").concat(crate::local::fmt_u32(n as u32).as_str());
        proof {
            assert(r@ =~= pad4(n as int));
        }
        r
    } else {
        crate::local::fmt_u32(n as u32)
    }
}

/// Renders the timestamp `t` as `YYYY-MM-DD HH:MM:SS` in the fixed UTC+8
/// zone the records live in.  Timestamps before the epoch's first local day
/// or past the ninth millennium are out of range.
pub fn unixtime_to_date(unixtime: i64) -> (r: String)
    requires
        -28800 <= unixtime <= 253402243199,
    ensures
        r@ == spec_date_text(unixtime as int),
{
    let t: u64 = (unixtime + 28800) as u64;
    let days: u64 = t / 86400 + 719468;
    let era: u64 = days / 146097;
    let doe: u64 = days - era * 146097;
    let yoe: u64 = (doe - doe / 1460 + doe / 36524 - doe / 146096) / 365;
    let doy: u64 = doe - (365 * yoe + yoe / 4 - yoe / 100);
    let mp: u64 = (5 * doy + 2) / 153;
    let d: u64 = doy - (153 * mp + 2) / 5 + 1;
    let m: u64 = if mp < 10 {
        mp + 3
    } else {
        mp - 9
    };
    let y: u64 = yoe + era * 400 + (if m <= 2 {
        1
    } else {
        0
    });
    let sod: u64 = t % 86400;
    let hh: u64 = sod / 3600;
    let mm: u64 = (sod % 3600) / 60;
    let ss: u64 = sod % 60;
    proof {
        reveal_strlit("-");
        reveal_strlit(" ");
        reveal_strlit(":");
    }
    let r = pad4_exec(y).concat("-").concat(pad2_exec(m).as_str()).concat("-").concat(
        pad2_exec(d).as_str(),
    ).concat(" ").concat(pad2_exec(hh).as_str()).concat(":").concat(
        pad2_exec(mm).as_str(),
    ).concat(":").concat(pad2_exec(ss).as_str());
    proof {
        assert(r@ =~= spec_date_text(unixtime as int));
    }
    r
}

} // verus!

//! Calendar dates in the fixed `YYYY-MM-DD` form used by a post's `date`
//! field. A post whose date does not pass [`validate_date`] is rejected at
//! parse time, so no invalid date ever reaches the sorting step.

use vstd::prelude::*;
use vstd::string::StrSliceExecFns;

verus! {

/// The numeric value of a decimal digit character.
pub open spec fn digit_val(c: char) -> int {
    c as int - 48
}

/// Whether `c` is a decimal digit.
pub open spec fn is_digit(c: char) -> bool {
    48 <= c as int && c as int <= 57
}

/// The Gregorian leap-year rule.
pub open spec fn is_leap_year(y: int) -> bool {
    (y % 4 == 0 && y % 100 != 0) || y % 400 == 0
}

/// How many days month `m` of year `y` has.
pub open spec fn days_in_month(y: int, m: int) -> int {
    if m == 2 {
        if is_leap_year(y) {
            29
        } else {
            28
        }
    } else if m == 4 || m == 6 || m == 9 || m == 11 {
        30
    } else {
        31
    }
}

/// The year read from the first four characters of a `YYYY-MM-DD` string.
pub open spec fn date_year(s: Seq<char>) -> int {
    1000 * digit_val(s[0]) + 100 * digit_val(s[1]) + 10 * digit_val(s[2]) + digit_val(s[3])
}

/// The month read from a `YYYY-MM-DD` string.
pub open spec fn date_month(s: Seq<char>) -> int {
    10 * digit_val(s[5]) + digit_val(s[6])
}

/// The day read from a `YYYY-MM-DD` string.
pub open spec fn date_day(s: Seq<char>) -> int {
    10 * digit_val(s[8]) + digit_val(s[9])
}

/// Whether `s` is a well-formed `YYYY-MM-DD` calendar date: zero-padded
/// digits in the right places, a month from 1 to 12, and a day that exists
/// in that month of that year.
pub open spec fn is_valid_date(s: Seq<char>) -> bool {
    &&& s.len() == 10
    &&& is_digit(s[0])
    &&& is_digit(s[1])
    &&& is_digit(s[2])
    &&& is_digit(s[3])
    &&& s[4] == '-'
    &&& is_digit(s[5])
    &&& is_digit(s[6])
    &&& s[7] == '-'
    &&& is_digit(s[8])
    &&& is_digit(s[9])
    &&& 1 <= date_month(s) && date_month(s) <= 12
    &&& 1 <= date_day(s) && date_day(s) <= days_in_month(date_year(s), date_month(s))
}

/// A total sort key for date strings. On valid dates it orders exactly as
/// the calendar does; any other string is ordered before all valid dates.
pub open spec fn date_num(s: Seq<char>) -> int {
    if s.len() == 10 {
        10000 * date_year(s) + 100 * date_month(s) + date_day(s)
    } else {
        -1
    }
}

/// Checks that `s` is a well-formed `YYYY-MM-DD` calendar date.
pub fn validate_date(s: &str) -> (b: bool)
    ensures
        b == is_valid_date(s@),
{
    let n = s.unicode_len();
    if n != 10 {
        return false;
    }
    let mut i: usize = 0;
    while i < 10
        invariant
            i <= 10,
            s@.len() == 10,
            forall|k: int| 0 <= k < i && k != 4 && k != 7 ==> is_digit(s@[k]),
            forall|k: int| 0 <= k < i && (k == 4 || k == 7) ==> s@[k] == '-',
        decreases 10 - i,
    {
        let c = s.get_char(i);
        if i == 4 || i == 7 {
            if c != '-' {
                return false;
            }
        } else {
            if (c as u32) < 48 || (c as u32) > 57 {
                return false;
            }
        }
        i = i + 1;
    }
    let m = 10 * (s.get_char(5) as u32 - 48) + (s.get_char(6) as u32 - 48);
    let d = 10 * (s.get_char(8) as u32 - 48) + (s.get_char(9) as u32 - 48);
    if m < 1 || m > 12 {
        return false;
    }
    let y = 1000 * (s.get_char(0) as u32 - 48) + 100 * (s.get_char(1) as u32 - 48) + 10 * (
    s.get_char(2) as u32 - 48) + (s.get_char(3) as u32 - 48);
    let dim: u32 = if m == 2 {
        if (y % 4 == 0 && y % 100 != 0) || y % 400 == 0 {
            29
        } else {
            28
        }
    } else if m == 4 || m == 6 || m == 9 || m == 11 {
        30
    } else {
        31
    };
    1 <= d && d <= dim
}

/// The sort key of a valid date string, as an integer `yyyymmdd`.
pub fn date_key(s: &str) -> (k: u32)
    requires
        is_valid_date(s@),
    ensures
        k as int == date_num(s@),
{
    let y = 1000 * (s.get_char(0) as u32 - 48) + 100 * (s.get_char(1) as u32 - 48) + 10 * (
    s.get_char(2) as u32 - 48) + (s.get_char(3) as u32 - 48);
    let m = 10 * (s.get_char(5) as u32 - 48) + (s.get_char(6) as u32 - 48);
    let d = 10 * (s.get_char(8) as u32 - 48) + (s.get_char(9) as u32 - 48);
    10000 * y + 100 * m + d
}

} // verus!

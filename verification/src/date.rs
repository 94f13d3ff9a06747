//! Resolving raw date strings of the form `dd.mm.yyyy` into weekdays.

use vstd::arithmetic::div_mod::lemma_div_multiples_vanish_fancy;
use vstd::arithmetic::div_mod::lemma_fundamental_div_mod;
use vstd::arithmetic::div_mod::lemma_mod_bound;
use vstd::arithmetic::div_mod::lemma_mod_multiples_vanish;
use vstd::prelude::*;
use vstd::string::StrSliceExecFns;

use crate::error::MensaError;
use crate::mensa::Weekday;
use crate::strutil::find_char;
use crate::strutil::find_char_at;

verus! {

/// A decimal digit.
pub open spec fn is_digit(c: char) -> bool {
    48 <= c as u32 <= 57
}

/// The value of one decimal digit.
pub open spec fn digit_val(c: char) -> int {
    c as u32 - 48
}

pub open spec fn all_digits(s: Seq<char>) -> bool {
    forall|i: int| 0 <= i < s.len() ==> is_digit(#[trigger] s[i])
}

/// The number a digit string denotes.
pub open spec fn digits_val(s: Seq<char>) -> int
    decreases s.len(),
{
    if s.len() == 0 {
        0
    } else {
        digits_val(s.drop_last()) * 10 + digit_val(s.last())
    }
}

/// What parsing a field as an unsigned number yields: the digits' value,
/// provided the field is nonempty, all digits, and the value at most `bound`.
pub open spec fn spec_parse_unsigned(s: Seq<char>, bound: int) -> Option<int> {
    if s.len() > 0 && all_digits(s) && digits_val(s) <= bound {
        Some(digits_val(s))
    } else {
        None
    }
}

/// What parsing a field as a signed number yields: an optional leading minus
/// sign, then digits, the magnitude at most `bound`.
pub open spec fn spec_parse_signed(s: Seq<char>, bound: int) -> Option<int> {
    if s.len() > 0 && s[0] == '-' {
        match spec_parse_unsigned(s.skip(1), bound) {
            Some(v) => Some(-v),
            None => None,
        }
    } else {
        spec_parse_unsigned(s, bound)
    }
}

/// The three dot-separated fields of a date string, when the string has
/// exactly two dots; `None` otherwise.
pub open spec fn spec_date_fields(s: Seq<char>) -> Option<(Seq<char>, Seq<char>, Seq<char>)> {
    let i = find_char(s, 0, '.');
    if i == s.len() {
        None
    } else {
        let j = find_char(s, i + 1, '.');
        if j == s.len() {
            None
        } else if find_char(s, j + 1, '.') != s.len() {
            None
        } else {
            Some((s.subrange(0, i), s.subrange(i + 1, j), s.subrange(j + 1, s.len() as int)))
        }
    }
}

/// Day, month and year as parsing yields them: day and month as unsigned
/// integers, the year as a signed integer, each within the range of the
/// machine type that carries it.
pub open spec fn spec_parse_date(s: Seq<char>) -> Option<(int, int, int)> {
    match spec_date_fields(s) {
        None => None,
        Some(f) => match (
            spec_parse_unsigned(f.0, u32::MAX as int),
            spec_parse_unsigned(f.1, u32::MAX as int),
            spec_parse_signed(f.2, i32::MAX as int),
        ) {
            (Some(d), Some(m), Some(y)) => Some((d, m, y)),
            _ => None,
        },
    }
}

/// A leap year of the proleptic Gregorian calendar.
pub open spec fn is_leap_year(y: int) -> bool {
    y % 4 == 0 && (y % 100 != 0 || y % 400 == 0)
}

pub open spec fn days_in_month(y: int, m: int) -> int {
    if m == 2 {
        if is_leap_year(y) {
            29
        } else {
            28
        }
    } else if m == 4 || m == 6 || m == 9 || m == 11 {
        30
    } else {
        31
    }
}

/// The three integers form a calendar date.
pub open spec fn valid_date(y: int, m: int, d: int) -> bool {
    1 <= m <= 12 && 1 <= d <= days_in_month(y, m)
}

/// Days since 1970-01-01 in the proleptic Gregorian calendar, counted with
/// the era decomposition of the calendar: eras of 400 years, 146097 days.
pub open spec fn days_from_civil(y: int, m: int, d: int) -> int {
    let yy = if m <= 2 {
        y - 1
    } else {
        y
    };
    let era = yy / 400;
    let yoe = yy - era * 400;
    let mp = if m > 2 {
        m - 3
    } else {
        m + 9
    };
    let doy = (153 * mp + 2) / 5 + d - 1;
    let doe = yoe * 365 + yoe / 4 - yoe / 100 + doy;
    era * 146097 + doe - 719468
}

/// The weekday of a date as an index, Monday = 0 through Sunday = 6.
pub open spec fn weekday_index(y: int, m: int, d: int) -> int {
    (days_from_civil(y, m, d) + 3) % 7
}

pub open spec fn weekday_from_index(i: int) -> Weekday {
    if i == 0 {
        Weekday::Mon
    } else if i == 1 {
        Weekday::Tue
    } else if i == 2 {
        Weekday::Wed
    } else if i == 3 {
        Weekday::Thu
    } else if i == 4 {
        Weekday::Fri
    } else if i == 5 {
        Weekday::Sat
    } else {
        Weekday::Sun
    }
}

/// What weekday resolution yields for a raw date string: `MalformedDate`
/// when the string is not three dot-separated integers, `InvalidDate` when
/// the integers form no calendar date, the weekday otherwise.
pub open spec fn spec_weekday_of(s: Seq<char>) -> Result<Weekday, MensaError> {
    match spec_parse_date(s) {
        None => Err(MensaError::MalformedDate),
        Some(t) => if valid_date(t.2, t.1, t.0) {
            Ok(weekday_from_index(weekday_index(t.2, t.1, t.0)))
        } else {
            Err(MensaError::InvalidDate)
        },
    }
}

proof fn lemma_digits_val_nonneg(s: Seq<char>)
    requires
        all_digits(s),
    ensures
        digits_val(s) >= 0,
    decreases s.len(),
{
    if s.len() > 0 {
        assert(all_digits(s.drop_last()));
        lemma_digits_val_nonneg(s.drop_last());
    }
}

/// A digit string denotes at least as much as any of its prefixes.
proof fn lemma_digits_val_prefix_le(s: Seq<char>, i: int)
    requires
        all_digits(s),
        0 <= i <= s.len(),
    ensures
        digits_val(s.subrange(0, i)) <= digits_val(s),
    decreases s.len() - i,
{
    if i < s.len() {
        lemma_digits_val_prefix_le(s, i + 1);
        let a = s.subrange(0, i);
        let b = s.subrange(0, i + 1);
        assert(b.drop_last() =~= a);
        assert(all_digits(a));
        lemma_digits_val_nonneg(a);
    } else {
        assert(s.subrange(0, i) =~= s);
    }
}

/// Parses `s[from..to]` as an unsigned decimal number of at most `bound`.
fn parse_unsigned(s: &str, from: usize, to: usize, bound: u32) -> (r: Option<u32>)
    requires
        from <= to <= s@.len(),
    ensures
        match r {
            Some(v) => spec_parse_unsigned(s@.subrange(from as int, to as int), bound as int)
                == Some(v as int),
            None => spec_parse_unsigned(s@.subrange(from as int, to as int), bound as int)
                is None,
        },
{
    let ghost t = s@.subrange(from as int, to as int);
    if from == to {
        return None;
    }
    let mut acc: u64 = 0;
    let mut i = from;
    while i < to
        invariant
            from <= i <= to <= s@.len(),
            t == s@.subrange(from as int, to as int),
            all_digits(t.subrange(0, i - from)),
            acc as int == digits_val(t.subrange(0, i - from)),
            acc <= bound as u64,
        decreases to - i,
    {
        let c = s.get_char(i);
        let cv = c as u32;
        proof {
            assert(t[i - from] == s@[i as int]);
        }
        if cv < 48 || cv > 57 {
            return None;
        }
        let d: u64 = (cv - 48) as u64;
        let next: u64 = acc * 10 + d;
        proof {
            let p1 = t.subrange(0, i - from);
            let p2 = t.subrange(0, i - from + 1);
            assert(p2.drop_last() =~= p1);
        }
        if next > bound as u64 {
            proof {
                if all_digits(t) {
                    lemma_digits_val_prefix_le(t, i - from + 1);
                }
            }
            return None;
        }
        acc = next;
        i += 1;
    }
    proof {
        assert(t.subrange(0, (to - from) as int) =~= t);
    }
    Some(acc as u32)
}

/// Parses `s[from..to]` as a signed decimal number whose magnitude fits an
/// `i32`.
fn parse_signed(s: &str, from: usize, to: usize) -> (r: Option<i32>)
    requires
        from <= to <= s@.len(),
    ensures
        match r {
            Some(v) => spec_parse_signed(s@.subrange(from as int, to as int), i32::MAX as int)
                == Some(v as int),
            None => spec_parse_signed(s@.subrange(from as int, to as int), i32::MAX as int)
                is None,
        },
{
    let ghost t = s@.subrange(from as int, to as int);
    if from < to && s.get_char(from) == '-' {
        proof {
            assert(t[0] == s@[from as int]);
            assert(s@.subrange(from + 1, to as int) =~= t.skip(1));
        }
        match parse_unsigned(s, from + 1, to, 2147483647) {
            Some(v) => Some(-(v as i32)),
            None => None,
        }
    } else {
        proof {
            if t.len() > 0 {
                assert(t[0] == s@[from as int]);
            }
        }
        match parse_unsigned(s, from, to, 2147483647) {
            Some(v) => Some(v as i32),
            None => None,
        }
    }
}

/// Whether the given year is a leap year.
fn is_leap(y: i32) -> (r: bool)
    ensures
        r == is_leap_year(y as int),
{
    let ys: u64 = ((y as i64) + 2_400_000_000) as u64;
    proof {
        lemma_mod_multiples_vanish(600_000_000, y as int, 4);
        lemma_mod_multiples_vanish(24_000_000, y as int, 100);
        lemma_mod_multiples_vanish(6_000_000, y as int, 400);
    }
    (ys % 4 == 0) && (ys % 100 != 0 || ys % 400 == 0)
}

/// Whether day, month and year form a calendar date.
fn check_valid(y: i32, m: u32, d: u32) -> (r: bool)
    ensures
        r == valid_date(y as int, m as int, d as int),
{
    if m < 1 || m > 12 {
        return false;
    }
    let dim: u32 = if m == 2 {
        if is_leap(y) {
            29
        } else {
            28
        }
    } else if m == 4 || m == 6 || m == 9 || m == 11 {
        30
    } else {
        31
    };
    1 <= d && d <= dim
}

/// Shifting the year by whole 400-year cycles leaves the weekday unchanged:
/// a cycle has 146097 days, a multiple of seven.
proof fn lemma_weekday_shift(y: int, m: int, d: int, k: int)
    ensures
        weekday_index(y + 400 * k, m, d) == weekday_index(y, m, d),
{
    let yy = if m <= 2 {
        y - 1
    } else {
        y
    };
    let era = yy / 400;
    let r = yy % 400;
    lemma_fundamental_div_mod(yy, 400);
    lemma_mod_bound(yy, 400);
    assert(yy + 400 * k == 400 * (era + k) + r);
    lemma_div_multiples_vanish_fancy(era + k, r, 400);
    let days = days_from_civil(y, m, d);
    let days2 = days_from_civil(y + 400 * k, m, d);
    assert(days2 == days + k * 146097);
    assert(days2 + 3 == 7 * (20871 * k) + (days + 3)) by (nonlinear_arith)
        requires
            days2 == days + k * 146097,
    ;
    lemma_mod_multiples_vanish(20871 * k, days + 3, 7);
}

/// The weekday of a valid calendar date, computed over a year shifted by
/// 6 million 400-year cycles so that every intermediate value is nonnegative.
fn weekday_for(y: i32, m: u32, d: u32) -> (r: Weekday)
    requires
        valid_date(y as int, m as int, d as int),
    ensures
        r == weekday_from_index(weekday_index(y as int, m as int, d as int)),
{
    let ys: u64 = ((y as i64) + 2_400_000_000) as u64;
    let yy: u64 = if m <= 2 {
        ys - 1
    } else {
        ys
    };
    let era: u64 = yy / 400;
    proof {
        lemma_fundamental_div_mod(yy as int, 400);
        lemma_mod_bound(yy as int, 400);
    }
    let yoe: u64 = yy - era * 400;
    let mp: u64 = if m > 2 {
        (m - 3) as u64
    } else {
        (m + 9) as u64
    };
    let doy: u64 = (153 * mp + 2) / 5 + (d as u64) - 1;
    let doe: u64 = yoe * 365 + yoe / 4 - yoe / 100 + doy;
    let days: u64 = era * 146097 + doe - 719468;
    let w: u64 = (days + 3) % 7;
    proof {
        lemma_mod_bound(days as int + 3, 7);
        assert(days as int == days_from_civil(y as int + 2_400_000_000, m as int, d as int));
        lemma_weekday_shift(y as int, m as int, d as int, 6_000_000);
        assert(w as int == weekday_index(y as int, m as int, d as int));
    }
    if w == 0 {
        Weekday::Mon
    } else if w == 1 {
        Weekday::Tue
    } else if w == 2 {
        Weekday::Wed
    } else if w == 3 {
        Weekday::Thu
    } else if w == 4 {
        Weekday::Fri
    } else if w == 5 {
        Weekday::Sat
    } else {
        Weekday::Sun
    }
}

/// Resolves a raw `dd.mm.yyyy` string into the weekday of the calendar date
/// it denotes.
pub fn weekday_of(s: &str) -> (r: Result<Weekday, MensaError>)
    ensures
        r == spec_weekday_of(s@),
{
    let n = s.unicode_len();
    let i = find_char_at(s, 0, '.');
    if i == n {
        return Err(MensaError::MalformedDate);
    }
    let j = find_char_at(s, i + 1, '.');
    if j == n {
        return Err(MensaError::MalformedDate);
    }
    let k = find_char_at(s, j + 1, '.');
    if k != n {
        return Err(MensaError::MalformedDate);
    }
    let day = parse_unsigned(s, 0, i, u32::MAX);
    let month = parse_unsigned(s, i + 1, j, u32::MAX);
    let year = parse_signed(s, j + 1, n);
    match (day, month, year) {
        (Some(dv), Some(mv), Some(yv)) => {
            if check_valid(yv, mv, dv) {
                Ok(weekday_for(yv, mv, dv))
            } else {
                Err(MensaError::InvalidDate)
            }
        },
        _ => Err(MensaError::MalformedDate),
    }
}

} // verus!

//! Decimal numerals, the Gregorian month lengths, validation of day / month /
//! year triples and the canonical `YYYY-MM-DD` form.
use vstd::prelude::*;
use crate::error::DateError;
use crate::text::{all_digits, ascii_digit};

verus! {

/// A day / month / year triple, each part present or not.
pub type Components = (Option<i32>, Option<i32>, Option<i32>);

/// The decimal value of a sequence of ASCII digits.
pub open spec fn decimal(s: Seq<char>) -> int
    decreases s.len(),
{
    if s.len() == 0 {
        0
    } else {
        decimal(s.drop_last()) * 10 + (s.last() as int - '0' as int)
    }
}

/// What parsing `s` as an `i32` number gives: its value when `s` is a
/// non-empty run of ASCII digits whose value fits.
pub open spec fn numeral(s: Seq<char>) -> Option<int> {
    if s.len() > 0 && all_digits(s) && decimal(s) <= i32::MAX {
        Some(decimal(s))
    } else {
        None
    }
}

proof fn lemma_decimal_nonneg(s: Seq<char>)
    requires
        all_digits(s),
    ensures
        decimal(s) >= 0,
    decreases s.len(),
{
    if s.len() > 0 {
        assert(all_digits(s.drop_last()));
        lemma_decimal_nonneg(s.drop_last());
    }
}

/// A longer run of digits never has a smaller value.
proof fn lemma_decimal_grows(s: Seq<char>, i: int)
    requires
        all_digits(s),
        0 <= i <= s.len(),
    ensures
        decimal(s.take(i)) <= decimal(s),
    decreases s.len() - i,
{
    if i < s.len() {
        lemma_decimal_grows(s, i + 1);
        assert(s.take(i + 1).drop_last() =~= s.take(i));
        assert(all_digits(s.take(i)));
        lemma_decimal_nonneg(s.take(i));
        assert(ascii_digit(s[i]));
    } else {
        assert(s.take(i) =~= s);
    }
}

/// The value of the digits in `s`, if `s` is a numeral that fits an `i32`.
pub fn parse_numeral(s: &Vec<char>) -> (r: Option<i32>)
    ensures
        r matches Some(v) ==> numeral(s@) == Some(v as int),
        r is None ==> numeral(s@) is None,
{
    if s.len() == 0 {
        return None;
    }
    let mut v: i64 = 0;
    let mut i: usize = 0;
    while i < s.len()
        invariant
            i <= s@.len(),
            all_digits(s@.take(i as int)),
            v == decimal(s@.take(i as int)),
            0 <= v <= i32::MAX,
        decreases s.len() - i,
    {
        let c = s[i];
        if !('0' <= c && c <= '9') {
            assert(!ascii_digit(s@[i as int]));
            return None;
        }
        assert(s@.take(i + 1).drop_last() =~= s@.take(i as int));
        v = v * 10 + (c as u32 - '0' as u32) as i64;
        i = i + 1;
        assert(all_digits(s@.take(i as int)));
        if v > i32::MAX as i64 {
            // the rest is checked only to tell "not a number" from "too large"
            let mut j: usize = i;
            while j < s.len()
                invariant
                    i <= j <= s@.len(),
                    all_digits(s@.take(j as int)),
                decreases s.len() - j,
            {
                if !('0' <= s[j] && s[j] <= '9') {
                    assert(!ascii_digit(s@[j as int]));
                    return None;
                }
                j = j + 1;
                assert(all_digits(s@.take(j as int))) by {
                    assert forall|k: int| 0 <= k < j implies ascii_digit(#[trigger] s@.take(j as int)[k]) by {
                        if k < j - 1 {
                            assert(s@.take(j as int)[k] == s@.take(j - 1)[k]);
                        }
                    }
                };
            }
            assert(s@.take(j as int) =~= s@);
            proof {
                lemma_decimal_grows(s@, i as int);
            }
            return None;
        }
    }
    assert(s@.take(i as int) =~= s@);
    Some(v as i32)
}


pub open spec fn is_leap_year(y: int) -> bool {
    (y % 4 == 0 && y % 100 != 0) || y % 400 == 0
}

/// The number of days of month `m` (1 to 12) in year `y`.
pub open spec fn days_in_month(m: int, y: int) -> int {
    if m == 2 {
        if is_leap_year(y) {
            29
        } else {
            28
        }
    } else if m == 4 || m == 6 || m == 9 || m == 11 {
        30
    } else {
        31
    }
}

/// The number of days from 1970-01-01 to year `y`, month `m`, day `d` of
/// the proleptic Gregorian calendar (negative before it). March starts the
/// counting year, so that a leap day ends it; `/` rounds down.
pub open spec fn days_from_civil(y: int, m: int, d: int) -> int {
    let yy = if m <= 2 {
        y - 1
    } else {
        y
    };
    let era = yy / 400;
    let year_of_era = yy - era * 400;
    let month_from_march = if m > 2 {
        m - 3
    } else {
        m + 9
    };
    let day_of_year = (153 * month_from_march + 2) / 5 + d - 1;
    let day_of_era = year_of_era * 365 + year_of_era / 4 - year_of_era / 100 + day_of_year;
    era * 146097 + day_of_era - 719468
}

/// Validation of a triple: a month outside 1 to 12 is fatal; when all three
/// parts are present, a day outside 1 to 31 is fatal and a day past the end of
/// its month is reduced to the month's last day.
pub open spec fn validated(day: Option<i32>, month: Option<i32>, year: Option<i32>) -> Result<
    Components,
    DateError,
> {
    if month is Some && (month->0 < 1 || month->0 > 12) {
        Err(DateError::MonthOutOfRange)
    } else if day is Some && month is Some && year is Some {
        let d = day->0 as int;
        let last = days_in_month(month->0 as int, year->0 as int);
        if d < 1 || d > 31 {
            Err(DateError::DayOutOfRange)
        } else if d > last {
            Ok((Some(last as i32), month, year))
        } else {
            Ok((day, month, year))
        }
    } else {
        Ok((day, month, year))
    }
}

fn month_length(m: i32, y: i32) -> (r: i32)
    requires
        1 <= m <= 12,
    ensures
        r == days_in_month(m as int, y as int),
{
    if m == 2 {
        let y4 = y % 4 == 0;
        let y100 = y % 100 == 0;
        let y400 = y % 400 == 0;
        if (y4 && !y100) || y400 {
            29
        } else {
            28
        }
    } else if m == 4 || m == 6 || m == 9 || m == 11 {
        30
    } else {
        31
    }
}

/// Validates a triple and clamps its day to the length of its month.
pub fn check_output(day: Option<i32>, month: Option<i32>, year: Option<i32>) -> (r: Result<
    Components,
    DateError,
>)
    ensures
        r == validated(day, month, year),
{
    if let Some(m) = month {
        if m < 1 || m > 12 {
            return Err(DateError::MonthOutOfRange);
        }
    }
    match (day, month, year) {
        (Some(d), Some(m), Some(y)) => {
            if d > 31 || d < 1 {
                return Err(DateError::DayOutOfRange);
            }
            let last = month_length(m, y);
            if d > last {
                Ok((Some(last), month, year))
            } else {
                Ok((day, month, year))
            }
        },
        _ => Ok((day, month, year)),
    }
}

/// February has 29 days in a year divisible by 4 but not by 100, 28 in a year
/// divisible by 100 but not by 400, 29 in a year divisible by 400; validation
/// reduces a later February day to that last day.
pub proof fn lemma_february_clamp(day: i32, year: i32)
    requires
        1 <= day <= 31,
    ensures
        year % 4 == 0 && year % 100 != 0 ==> validated(Some(day), Some(2), Some(year)) == Ok::<
            Components,
            DateError,
        >((Some(if day > 29 { 29 } else { day }), Some(2i32), Some(year))),
        year % 100 == 0 && year % 400 != 0 ==> validated(Some(day), Some(2), Some(year)) == Ok::<
            Components,
            DateError,
        >((Some(if day > 28 { 28 } else { day }), Some(2i32), Some(year))),
        year % 400 == 0 ==> validated(Some(day), Some(2), Some(year)) == Ok::<
            Components,
            DateError,
        >((Some(if day > 29 { 29 } else { day }), Some(2i32), Some(year))),
{
}

/// A month outside 1 to 12 is fatal, whatever the day and the year.
pub proof fn lemma_month_out_of_range_fatal(day: Option<i32>, month: i32, year: Option<i32>)
    requires
        month < 1 || month > 12,
    ensures
        validated(day, Some(month), year) == Err::<Components, DateError>(
            DateError::MonthOutOfRange,
        ),
{
}

/// With a valid month, a day outside 1 to 31 is fatal; a day within 1 to 31
/// but past the end of its month is reduced to the month's last day, never
/// rejected.
pub proof fn lemma_day_range(day: i32, month: i32, year: i32)
    requires
        1 <= month <= 12,
    ensures
        (day < 1 || day > 31) ==> validated(Some(day), Some(month), Some(year)) == Err::<
            Components,
            DateError,
        >(DateError::DayOutOfRange),
        1 <= day <= 31 ==> validated(Some(day), Some(month), Some(year)) == Ok::<
            Components,
            DateError,
        >(
            (
                Some(
                    if day > days_in_month(month as int, year as int) {
                        days_in_month(month as int, year as int) as i32
                    } else {
                        day
                    },
                ),
                Some(month),
                Some(year),
            ),
        ),
{
}

/// The ASCII digit for `n` (0 to 9).
pub open spec fn digit(n: int) -> char {
    if n <= 0 {
        '0'
    } else if n == 1 {
        '1'
    } else if n == 2 {
        '2'
    } else if n == 3 {
        '3'
    } else if n == 4 {
        '4'
    } else if n == 5 {
        '5'
    } else if n == 6 {
        '6'
    } else if n == 7 {
        '7'
    } else if n == 8 {
        '8'
    } else {
        '9'
    }
}

/// `n` (0 to 99) in two digits.
pub open spec fn two_digits(n: int) -> Seq<char> {
    seq![digit(n / 10), digit(n % 10)]
}

/// `n` (0 to 9999) in four digits.
pub open spec fn four_digits(n: int) -> Seq<char> {
    seq![digit(n / 1000), digit((n / 100) % 10), digit((n / 10) % 10), digit(n % 10)]
}

/// The canonical form `YYYY-MM-DD` of a date.
pub open spec fn canonical(y: int, m: int, d: int) -> Seq<char> {
    four_digits(y) + seq!['-'] + two_digits(m) + seq!['-'] + two_digits(d)
}

fn digit_char(n: i32) -> (c: char)
    requires
        0 <= n <= 9,
    ensures
        c == digit(n as int),
{
    if n == 0 {
        '0'
    } else if n == 1 {
        '1'
    } else if n == 2 {
        '2'
    } else if n == 3 {
        '3'
    } else if n == 4 {
        '4'
    } else if n == 5 {
        '5'
    } else if n == 6 {
        '6'
    } else if n == 7 {
        '7'
    } else if n == 8 {
        '8'
    } else {
        '9'
    }
}

/// The characters of `canonical(y, m, d)`.
pub fn canonical_chars(y: i32, m: i32, d: i32) -> (r: Vec<char>)
    requires
        0 <= y <= 9999,
        0 <= m <= 99,
        0 <= d <= 99,
    ensures
        r@ == canonical(y as int, m as int, d as int),
{
    let mut r: Vec<char> = Vec::new();
    r.push(digit_char(y / 1000));
    r.push(digit_char((y / 100) % 10));
    r.push(digit_char((y / 10) % 10));
    r.push(digit_char(y % 10));
    r.push('-');
    r.push(digit_char(m / 10));
    r.push(digit_char(m % 10));
    r.push('-');
    r.push(digit_char(d / 10));
    r.push(digit_char(d % 10));
    assert(r@ =~= canonical(y as int, m as int, d as int));
    r
}

/// The canonical form of a triple whose parts are all present.
pub open spec fn combined(c: Components) -> Option<Seq<char>> {
    if c.0 is Some && c.1 is Some && c.2 is Some {
        Some(canonical(c.2->0 as int, c.1->0 as int, c.0->0 as int))
    } else {
        None
    }
}

/// A triple that `canonical_chars` can write: a year of at most four digits,
/// a month and a day of at most two.
pub open spec fn writable(c: Components) -> bool {
    (c.0 is Some && c.1 is Some && c.2 is Some) ==> (0 <= c.2->0 <= 9999 && 0 <= c.1->0 <= 99 && 0
        <= c.0->0 <= 99)
}

/// The canonical date of a complete triple; `None` when a part is missing.
pub fn combine_partial_date(day: Option<i32>, month: Option<i32>, year: Option<i32>) -> (r: Option<
    String,
>)
    requires
        writable((day, month, year)),
    ensures
        r matches Some(s) ==> combined((day, month, year)) == Some(s@),
        r is None ==> combined((day, month, year)) is None,
{
    match (day, month, year) {
        (Some(d), Some(m), Some(y)) => {
            let v = canonical_chars(y, m, d);
            Some(crate::text::string_of(&v))
        },
        _ => None,
    }
}

/// `n` (0 to 99) in two digits.
pub fn two_digit_chars(n: i32) -> (r: Vec<char>)
    requires
        0 <= n <= 99,
    ensures
        r@ == two_digits(n as int),
{
    let mut r: Vec<char> = Vec::new();
    r.push(digit_char(n / 10));
    r.push(digit_char(n % 10));
    assert(r@ =~= two_digits(n as int));
    r
}

/// A run of at most four digits has a value of at most 9999 (of at most two
/// digits, at most 99).
pub proof fn lemma_decimal_bound(s: Seq<char>)
    requires
        all_digits(s),
    ensures
        0 <= decimal(s),
        s.len() <= 1 ==> decimal(s) <= 9,
        s.len() <= 2 ==> decimal(s) <= 99,
        s.len() <= 3 ==> decimal(s) <= 999,
        s.len() <= 4 ==> decimal(s) <= 9999,
    decreases s.len(),
{
    if s.len() > 0 {
        assert(all_digits(s.drop_last()));
        lemma_decimal_bound(s.drop_last());
        assert(ascii_digit(s.last()));
    }
}

/// A validated complete triple has a month in 1 to 12 and a day in 1 to 31.
pub proof fn lemma_validated_ranges(day: Option<i32>, month: Option<i32>, year: Option<i32>)
    ensures
        validated(day, month, year) matches Ok(c) ==> {
            &&& c.1 == month
            &&& c.2 == year
            &&& c.1 is Some ==> 1 <= c.1->0 <= 12
            &&& (c.0 is Some && c.1 is Some && c.2 is Some) ==> 1 <= c.0->0 <= 31
            &&& c.0 is Some ==> day is Some
        },
{
}

} // verus!

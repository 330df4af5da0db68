//! Assignment of components to day, month and year: two-digit years,
//! year-only dates, serial day numbers, and the general component parser.
use vstd::prelude::*;
use vstd::string::*;
use crate::calendar::{decimal, numeral, parse_numeral, Components};
use crate::error::{Component, DateError, Imputation};
use crate::split::string_views;
use crate::text::{all_digits, ascii_digit, chars_of, string_of};

verus! {

/// Is every character an ASCII digit? (The empty string is.)
pub fn is_numeric(s: &str) -> (r: bool)
    ensures
        r == all_digits(s@),
{
    let v = chars_of(s);
    let mut i: usize = 0;
    while i < v.len()
        invariant
            v@ == s@,
            i <= v@.len(),
            forall|j: int| 0 <= j < i ==> ascii_digit(#[trigger] v@[j]),
        decreases v.len() - i,
    {
        if !('0' <= v[i] && v[i] <= '9') {
            return false;
        }
        i = i + 1;
    }
    true
}

/// `s` without the characters other than ASCII digits at its end.
pub open spec fn without_trailing_non_digits(s: Seq<char>) -> Seq<char>
    decreases s.len(),
{
    if s.len() > 0 && !ascii_digit(s.last()) {
        without_trailing_non_digits(s.drop_last())
    } else {
        s
    }
}

/// Drops trailing characters that are not ASCII digits ("15," gives "15").
pub fn clean_numeric_string(s: &str) -> (r: &str)
    ensures
        r@ == without_trailing_non_digits(s@),
{
    let v = chars_of(s);
    let mut n: usize = v.len();
    assert(v@.subrange(0, n as int) =~= s@);
    while n > 0 && !('0' <= v[n - 1] && v[n - 1] <= '9')
        invariant
            v@ == s@,
            n <= v@.len(),
            without_trailing_non_digits(s@) == without_trailing_non_digits(v@.subrange(0, n as int)),
        decreases n,
    {
        assert(v@.subrange(0, n as int).drop_last() =~= v@.subrange(0, n - 1));
        n = n - 1;
    }
    s.substring_char(0, n)
}

/// Rejects a year component longer than four characters.
pub fn validate_year_length(year_str: &str) -> (r: Result<(), DateError>)
    ensures
        r is Ok <==> year_str@.len() <= 4,
        r is Err ==> r == Err::<(), DateError>(DateError::Untidy),
{
    if year_str.unicode_len() > 4 {
        Err(DateError::Untidy)
    } else {
        Ok(())
    }
}

/// The last two digits of the current year.
pub open spec fn pivot_of(current_year: i32) -> int {
    current_year as int % 100
}

/// A two-digit year with its century: "20" when its value is at most the
/// pivot, else "19"; a year of another length is left as it is.
pub open spec fn with_century(year: Seq<char>, current_year: i32) -> Seq<char> {
    if year.len() == 2 {
        let v = match numeral(year) {
            Some(v) => v,
            None => 0,
        };
        if v <= pivot_of(current_year) {
            seq!['2', '0'] + year
        } else {
            seq!['1', '9'] + year
        }
    } else {
        year
    }
}

fn century_chars(year: &Vec<char>, current_year: i32) -> (r: Vec<char>)
    ensures
        r@ == with_century(year@, current_year),
{
    if year.len() != 2 {
        return year.clone();
    }
    let v: i64 = match parse_numeral(year) {
        Some(v) => v as i64,
        None => 0,
    };
    let c = current_year as i64 % 100;
    let pivot = if c < 0 {
        c + 100
    } else {
        c
    };
    assert(pivot == pivot_of(current_year));
    let mut r: Vec<char> = Vec::new();
    if v <= pivot {
        r.push('2');
        r.push('0');
    } else {
        r.push('1');
        r.push('9');
    }
    r.push(year[0]);
    r.push(year[1]);
    assert(r@ =~= with_century(year@, current_year));
    r
}

/// Adds the century to a two-digit year, given the current year: a value up
/// to the current year's last two digits is in the 2000s, a larger one in the
/// 1900s ("23" gives "2023" in 2025, "99" gives "1999").
pub fn year_prefix_at(year: &str, current_year: i32) -> (r: String)
    ensures
        r@ == with_century(year@, current_year),
{
    string_of(&century_chars(&chars_of(year), current_year))
}

/// Relies on chrono's `Utc::now` and `Datelike::year`: the current year in UTC.
#[verifier::external_body]
pub(crate) fn current_year() -> (r: i32) {
    chrono::Datelike::year(&chrono::Utc::now())
}

/// Adds the century to a two-digit year, pivoting on the current year.
pub fn year_prefix(year: &str) -> (r: String)
    ensures
        exists|y: i32| r@ == with_century(year@, y),
{
    let now = current_year();
    year_prefix_at(year, now)
}

/// Are all components one or two characters long?
pub open spec fn all_short(tokens: Seq<Seq<char>>) -> bool {
    forall|i: int| 0 <= i < tokens.len() ==> 0 < (#[trigger] tokens[i]).len() <= 2
}

/// The components with a century added to a two-digit final year, when all
/// components are short.
pub open spec fn with_full_year(tokens: Seq<Seq<char>>, current_year: i32) -> Seq<Seq<char>> {
    if all_short(tokens) && tokens.len() == 3 && tokens[2].len() == 2 {
        tokens.update(2, with_century(tokens[2], current_year))
    } else if all_short(tokens) && tokens.len() == 2 && tokens[1].len() == 2 {
        tokens.update(1, with_century(tokens[1], current_year))
    } else {
        tokens
    }
}

/// Adds the century to the year of a date whose components are all short.
pub fn append_year_at(date_vec: Vec<String>, current_year: i32) -> (r: Vec<String>)
    ensures
        string_views(r@) == with_full_year(string_views(date_vec@), current_year),
{
    let mut date_vec = date_vec;
    let ghost toks = string_views(date_vec@);
    let mut short = true;
    let mut i: usize = 0;
    while i < date_vec.len()
        invariant
            toks == string_views(date_vec@),
            i <= date_vec@.len(),
            short == forall|j: int| 0 <= j < i ==> 0 < (#[trigger] toks[j]).len() <= 2,
        decreases date_vec.len() - i,
    {
        let n = date_vec[i].as_str().unicode_len();
        assert(toks[i as int].len() == n);
        if n == 0 || n > 2 {
            short = false;
        }
        assert(short == forall|j: int| 0 <= j < i + 1 ==> 0 < (#[trigger] toks[j]).len() <= 2) by {
            if !short && n > 0 && n <= 2 {
                let j = choose|j: int| 0 <= j < i && !(0 < (#[trigger] toks[j]).len() <= 2);
            }
        };
        i = i + 1;
    }
    assert(short == all_short(toks));
    let last: usize = if date_vec.len() == 3 {
        2
    } else {
        1
    };
    if short && (date_vec.len() == 3 || date_vec.len() == 2) && date_vec[last].as_str().unicode_len()
        == 2 {
        let full = year_prefix_at(date_vec[last].as_str(), current_year);
        date_vec.set(last, full);
        assert(string_views(date_vec@) =~= toks.update(
            last as int,
            with_century(toks[last as int], current_year),
        ));
    }
    date_vec
}

/// Adds the century to the year of a date whose components are all short,
/// pivoting on the current year.
pub fn append_year(date_vec: Vec<String>) -> (r: Vec<String>)
    ensures
        exists|y: i32| string_views(r@) == with_full_year(string_views(date_vec@), y),
{
    let now = current_year();
    append_year_at(date_vec, now)
}

/// The number a component holds, or the failure naming it.
pub open spec fn component_value(t: Seq<char>, c: Component) -> Result<i32, DateError> {
    match numeral(t) {
        Some(v) => Ok(v as i32),
        None => Err(DateError::InvalidComponent(c)),
    }
}

fn component(t: &String, c: Component) -> (r: Result<i32, DateError>)
    ensures
        r == component_value(t@, c),
{
    match parse_numeral(&chars_of(t.as_str())) {
        Some(v) => Ok(v),
        None => Err(DateError::InvalidComponent(c)),
    }
}

/// Day, month and year read in that order of components.
pub open spec fn read_dmy(d: Seq<char>, m: Seq<char>, y: Seq<char>) -> Result<Components, DateError> {
    match component_value(d, Component::Day) {
        Err(e) => Err(e),
        Ok(day) => match component_value(m, Component::Month) {
            Err(e) => Err(e),
            Ok(month) => if y.len() > 4 {
                Err(DateError::Untidy)
            } else {
                match component_value(y, Component::Year) {
                    Err(e) => Err(e),
                    Ok(year) => Ok((Some(day), Some(month), Some(year))),
                }
            },
        },
    }
}

/// Year, month and day read from `YYYY`, `MM`, `DD` components.
pub open spec fn read_ymd(y: Seq<char>, m: Seq<char>, d: Seq<char>) -> Result<Components, DateError> {
    match component_value(y, Component::Year) {
        Err(e) => Err(e),
        Ok(year) => match component_value(m, Component::Month) {
            Err(e) => Err(e),
            Ok(month) => match component_value(d, Component::Day) {
                Err(e) => Err(e),
                Ok(day) => Ok((Some(day), Some(month), Some(year))),
            },
        },
    }
}

/// Month and year of a two-component date, with the imputed day.
pub open spec fn read_month_year(day: i32, m: Seq<char>, y: Seq<char>, year_first: bool) -> Result<
    Components,
    DateError,
> {
    if year_first {
        match component_value(y, Component::Year) {
            Err(e) => Err(e),
            Ok(year) => match component_value(m, Component::Month) {
                Err(e) => Err(e),
                Ok(month) => Ok((Some(day), Some(month), Some(year))),
            },
        }
    } else {
        match component_value(m, Component::Month) {
            Err(e) => Err(e),
            Ok(month) => match component_value(y, Component::Year) {
                Err(e) => Err(e),
                Ok(year) => Ok((Some(day), Some(month), Some(year))),
            },
        }
    }
}

/// The day, month and year that the components give under the format. With
/// fewer than three components the day must be imputed: with no imputation
/// value that is fatal, with `Skip` the date stays unresolved; the four-digit
/// component of two is the year. With three or more, a leading four-digit
/// component gives year, month, day; a four-digit second component is the
/// year, with the other two in the order of the format; otherwise the format
/// decides between day-month-year and month-day-year. Read month first, the
/// day may carry trailing punctuation.
pub open spec fn parsed(tokens: Seq<Seq<char>>, format: Seq<char>, day: Imputation) -> Result<
    Components,
    DateError,
> {
    if tokens.len() < 3 {
        match day {
            Imputation::Unspecified => Err(DateError::MissingDay),
            Imputation::Skip => Err(DateError::SkipRequested),
            Imputation::Value(d) => if tokens.len() == 2 {
                if tokens[0].len() == 4 {
                    read_month_year(d, tokens[1], tokens[0], true)
                } else if tokens[1].len() == 4 {
                    read_month_year(d, tokens[0], tokens[1], false)
                } else {
                    Err(DateError::AmbiguousFormat)
                }
            } else {
                Err(DateError::InsufficientComponents)
            },
        }
    } else if tokens[0].len() == 4 {
        read_ymd(tokens[0], tokens[1], tokens[2])
    } else if tokens[1].len() == 4 {
        if format == "dmy"@ {
            read_dmy(tokens[0], tokens[2], tokens[1])
        } else if format == "mdy"@ {
            read_dmy(without_trailing_non_digits(tokens[2]), tokens[0], tokens[1])
        } else {
            Err(DateError::InvalidFormat)
        }
    } else if format == "dmy"@ {
        read_dmy(tokens[0], tokens[1], tokens[2])
    } else if format == "mdy"@ {
        read_dmy(without_trailing_non_digits(tokens[1]), tokens[0], tokens[2])
    } else {
        Err(DateError::InvalidFormat)
    }
}

fn read_components(d: &String, m: &String, y: &String) -> (r: Result<Components, DateError>)
    ensures
        r == read_dmy(d@, m@, y@),
{
    let day = component(d, Component::Day)?;
    let month = component(m, Component::Month)?;
    validate_year_length(y.as_str())?;
    let year = component(y, Component::Year)?;
    Ok((Some(day), Some(month), Some(year)))
}

/// Reads day, month and year from the components of a date (see `parsed`).
pub fn parse_date_components(date_vec: &[String], effective_format: &str, day_impute: Imputation) -> (r:
    Result<Components, DateError>)
    ensures
        r == parsed(string_views(date_vec@), effective_format@, day_impute),
{
    let ghost toks = string_views(date_vec@);
    let f = chars_of(effective_format);
    if date_vec.len() < 3 {
        let day = match day_impute {
            Imputation::Unspecified => return Err(DateError::MissingDay),
            Imputation::Skip => return Err(DateError::SkipRequested),
            Imputation::Value(d) => d,
        };
        if date_vec.len() == 2 {
            if date_vec[0].as_str().unicode_len() == 4 {
                let year = component(&date_vec[0], Component::Year)?;
                let month = component(&date_vec[1], Component::Month)?;
                Ok((Some(day), Some(month), Some(year)))
            } else if date_vec[1].as_str().unicode_len() == 4 {
                let month = component(&date_vec[0], Component::Month)?;
                let year = component(&date_vec[1], Component::Year)?;
                Ok((Some(day), Some(month), Some(year)))
            } else {
                Err(DateError::AmbiguousFormat)
            }
        } else {
            Err(DateError::InsufficientComponents)
        }
    } else if date_vec[0].as_str().unicode_len() == 4 {
        let year = component(&date_vec[0], Component::Year)?;
        let month = component(&date_vec[1], Component::Month)?;
        let day = component(&date_vec[2], Component::Day)?;
        Ok((Some(day), Some(month), Some(year)))
    } else if date_vec[1].as_str().unicode_len() == 4 {
        if crate::text::same_chars(&f, "dmy") {
            read_components(&date_vec[0], &date_vec[2], &date_vec[1])
        } else if crate::text::same_chars(&f, "mdy") {
            let day = String::from_str(clean_numeric_string(date_vec[2].as_str()));
            read_components(&day, &date_vec[0], &date_vec[1])
        } else {
            Err(DateError::InvalidFormat)
        }
    } else if crate::text::same_chars(&f, "dmy") {
        read_components(&date_vec[0], &date_vec[1], &date_vec[2])
    } else if crate::text::same_chars(&f, "mdy") {
        let day = String::from_str(clean_numeric_string(date_vec[1].as_str()));
        read_components(&day, &date_vec[0], &date_vec[2])
    } else {
        Err(DateError::InvalidFormat)
    }
}

/// Two-digit years pivot on the current year: a value at or below the last
/// two digits of the current year is put in the 2000s, a larger one in the
/// 1900s.
pub proof fn lemma_century_pivot(year: Seq<char>, current_year: i32)
    requires
        year.len() == 2,
        all_digits(year),
    ensures
        decimal(year) <= pivot_of(current_year) ==> with_century(year, current_year) == seq![
            '2',
            '0',
        ] + year,
        decimal(year) > pivot_of(current_year) ==> with_century(year, current_year) == seq![
            '1',
            '9',
        ] + year,
{
    crate::calendar::lemma_decimal_bound(year);
}

} // verus!

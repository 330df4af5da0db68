//! The whole normalisation of one date, and of a batch of dates.
use vstd::prelude::*;
use crate::calendar::{
    days_from_civil, days_in_month, digit, four_digits, two_digits,
    canonical, canonical_chars, check_output, combine_partial_date, combined,
    decimal, lemma_decimal_bound, lemma_validated_ranges, numeral, parse_numeral, validated,
    writable, Components,
};
use crate::error::{DateError, Imputation};
use crate::fastpath::{fast_path, fast_path_parse_date};
use crate::lexicon::{convert_chars, leads_with_month, month_converted, month_number, month_of_name, with_roman_month};
use crate::normalize::{clean_chars, cleaned, lemma_replaced_nowhere, occurs_at, replaced, without_ordinals};
use crate::parse::{parsed, with_full_year};
use crate::split::{char_views, separate_chars, separated, string_views, strings_of};
use crate::text::{all_digits, ascii_digit, chars_of, lowered, same_chars, string_of, to_lower, white_space};

verus! {

/// The largest serial day number that is read as a date.
pub const SERIAL_LIMIT: i32 = 3000000;

/// Days from the spreadsheet epoch 1899-12-30 to 1970-01-01.
pub const EXCEL_EPOCH_OFFSET: i32 = 25569;

/// What chrono gives as the (year, month, day) of a day counted from
/// 1970-01-01.
pub uninterp spec fn epoch_day_date(days: int) -> Option<(int, int, int)>;

/// Relies on chrono's `NaiveDate::from_epoch_days` (the proleptic Gregorian
/// date `days` days after 1970-01-01; `None` out of chrono's range) and on
/// `Datelike`'s `year`, `month` (1 to 12) and `day` (1 to the month's length).
#[verifier::external_body]
fn date_from_epoch_days(days: i32) -> (r: Option<(i32, u32, u32)>)
    ensures
        r matches Some(t) ==> epoch_day_date(days as int) == Some((t.0 as int, t.1 as int, t.2 as int))
            && 1 <= t.1 <= 12 && 1 <= t.2 <= days_in_month(t.1 as int, t.0 as int)
            && days_from_civil(t.0 as int, t.1 as int, t.2 as int) == days as int,
        r is None ==> epoch_day_date(days as int) is None,
{
    chrono::NaiveDate::from_epoch_days(days).map(
        |d| (chrono::Datelike::year(&d), chrono::Datelike::month(&d), chrono::Datelike::day(&d)),
    )
}

/// The canonical date of a serial day number: a numeral of other than four
/// digits, at most `SERIAL_LIMIT`, counted in days from 1899-12-30 (`excel`)
/// or from 1970-01-01, whose date falls in the years 0 to 9999.
pub open spec fn serial_date(c: Seq<char>, excel: bool) -> Option<Seq<char>> {
    if c.len() != 4 {
        match numeral(c) {
            Some(n) => if n <= SERIAL_LIMIT {
                let days = if excel {
                    n - EXCEL_EPOCH_OFFSET
                } else {
                    n
                };
                match epoch_day_date(days) {
                    Some(t) => if 0 <= t.0 <= 9999 {
                        Some(canonical(t.0, t.1, t.2))
                    } else {
                        None
                    },
                    None => None,
                }
            } else {
                None
            },
            None => None,
        }
    } else {
        None
    }
}

/// The day, counted from 1970-01-01, that a serial number names.
pub open spec fn serial_day(n: int, excel: bool) -> int {
    if excel {
        n - EXCEL_EPOCH_OFFSET
    } else {
        n
    }
}

/// Reads a serial day number (see `serial_date`); `None` when `cleaned_date`
/// is not one. The result is the canonical form of the valid date that lies
/// the serial number of days after the epoch.
pub fn handle_numeric_dates(cleaned_date: &str, excel: bool) -> (r: Option<String>)
    ensures
        r matches Some(s) ==> serial_date(cleaned_date@, excel) == Some(s@),
        r matches Some(s) ==> exists|y: int, m: int, d: int|
            valid_date(y, m, d) && days_from_civil(y, m, d) == serial_day(
                numeral(cleaned_date@)->0,
                excel,
            ) && s@ == #[trigger] canonical(y, m, d),
        r is None ==> serial_date(cleaned_date@, excel) is None,
{
    let c = chars_of(cleaned_date);
    if c.len() == 4 {
        return None;
    }
    let n = match parse_numeral(&c) {
        Some(n) => n,
        None => return None,
    };
    proof {
        lemma_decimal_bound(c@);
    }
    if n > SERIAL_LIMIT {
        return None;
    }
    let days = if excel {
        n - EXCEL_EPOCH_OFFSET
    } else {
        n
    };
    match date_from_epoch_days(days) {
        Some((y, m, d)) => {
            if 0 <= y && y <= 9999 {
                let r = string_of(&canonical_chars(y, m as i32, d as i32));
                assert(valid_date(y as int, m as int, d as int));
                Some(r)
            } else {
                None
            }
        },
        None => None,
    }
}

/// The outcome of a year-only date (four digits): unresolved when either
/// imputation is `Skip`; fatal when the month's, then the day's, imputation
/// value is missing; else the year with the imputed month and day, validated.
/// `Ok(None)` also for a date that is not year-only.
pub open spec fn year_only_outcome(c: Seq<char>, day: Imputation, month: Imputation) -> Result<
    Option<Seq<char>>,
    DateError,
> {
    if !(c.len() == 4 && all_digits(c)) {
        Ok(None)
    } else if day is Skip || month is Skip {
        Ok(None)
    } else if month is Unspecified {
        Err(DateError::MissingMonth)
    } else if day is Unspecified {
        Err(DateError::MissingDay)
    } else {
        match validated(Some(day->Value_0), Some(month->Value_0), Some(decimal(c) as i32)) {
            Ok(t) => Ok(combined(t)),
            Err(e) => Err(e),
        }
    }
}

pub open spec fn outcome_view(r: Result<Option<String>, DateError>) -> Result<
    Option<Seq<char>>,
    DateError,
> {
    match r {
        Ok(Some(s)) => Ok(Some(s@)),
        Ok(None) => Ok(None),
        Err(e) => Err(e),
    }
}

/// The canonical date of a validated triple.
fn finish(c: Result<Components, DateError>) -> (r: Result<Option<String>, DateError>)
    requires
        c matches Ok(t) ==> writable(t),
    ensures
        outcome_view(r) == match c {
            Ok(t) => Ok::<Option<Seq<char>>, DateError>(combined(t)),
            Err(e) => Err(e),
        },
{
    match c {
        Ok((d, m, y)) => Ok(combine_partial_date(d, m, y)),
        Err(e) => Err(e),
    }
}

/// Resolves a year-only date (four digits) with the imputed day and month.
pub fn handle_year_only_date(cleaned_date: &str, day_impute: Imputation, month_impute: Imputation) -> (r:
    Result<Option<String>, DateError>)
    ensures
        outcome_view(r) == year_only_outcome(cleaned_date@, day_impute, month_impute),
{
    let c = chars_of(cleaned_date);
    if !(c.len() == 4 && crate::parse::is_numeric(cleaned_date)) {
        return Ok(None);
    }
    let (d, m) = match (day_impute, month_impute) {
        (Imputation::Skip, _) | (_, Imputation::Skip) => return Ok(None),
        (_, Imputation::Unspecified) => return Err(DateError::MissingMonth),
        (Imputation::Unspecified, _) => return Err(DateError::MissingDay),
        (Imputation::Value(d), Imputation::Value(m)) => (d, m),
    };
    proof {
        lemma_decimal_bound(c@);
    }
    let year = match parse_numeral(&c) {
        Some(y) => y,
        None => return Ok(None),
    };
    proof {
        lemma_validated_ranges(Some(d), Some(m), Some(year));
    }
    finish(check_output(Some(d), Some(m), Some(year)))
}

/// The order the components are read in: month first when the first
/// component names a month, day first when the second one does, else as the
/// format says.
pub open spec fn effective_format(tokens: Seq<Seq<char>>, format: Seq<char>) -> Seq<char> {
    if leads_with_month(tokens) {
        "mdy"@
    } else if tokens.len() > 1 && month_of_name(lowered(tokens[1])) is Some {
        "dmy"@
    } else {
        format
    }
}

/// The components of a cleaned date with month names, and in Roman numeral
/// mode a Roman numeral month, rewritten as numbers.
pub open spec fn resolved_tokens(c: Seq<char>, roman: bool) -> Seq<Seq<char>> {
    let t = separated(c).map_values(|w: Seq<char>| month_converted(w));
    if roman {
        with_roman_month(t)
    } else {
        t
    }
}

/// Is the input longer than 200 characters, or a component longer than six,
/// or a numeral component longer than four?
pub open spec fn oversized(s: Seq<char>, tokens: Seq<Seq<char>>) -> bool {
    s.len() > 200 || exists|i: int|
        0 <= i < tokens.len() && ((#[trigger] tokens[i]).len() > 6 || (all_digits(tokens[i])
            && tokens[i].len() > 4))
}

/// The outcome of the general path: split, rewrite month names, guard sizes,
/// complete two-digit years, parse, validate.
pub open spec fn general_outcome(
    s: Seq<char>,
    c: Seq<char>,
    day: Imputation,
    format: Seq<char>,
    roman: bool,
    current_year: i32,
) -> Result<Option<Seq<char>>, DateError> {
    let tokens = resolved_tokens(c, roman);
    if oversized(s, tokens) {
        Err(DateError::Untidy)
    } else {
        match parsed(with_full_year(tokens, current_year), effective_format(separated(c), format), day) {
            Err(DateError::SkipRequested) => Ok(None),
            Err(e) => Err(e),
            Ok(t) => match validated(t.0, t.1, t.2) {
                Ok(v) => Ok(combined(v)),
                Err(e) => Err(e),
            },
        }
    }
}

/// The outcome for one date string: empty and "NA" are unresolved; once
/// cleaned, a fixed-width date is read directly, a four-digit date is a
/// year, a numeral is a serial day number, and anything else takes the
/// general path.
pub open spec fn date_outcome(
    s: Seq<char>,
    day: Imputation,
    month: Imputation,
    format: Seq<char>,
    excel: bool,
    roman: bool,
    current_year: i32,
) -> Result<Option<Seq<char>>, DateError> {
    if s.len() == 0 || s == "NA"@ {
        Ok(None)
    } else {
        let c = cleaned(s);
        match fast_path(c, format) {
            Some(t) => match validated(Some(t.0 as i32), Some(t.1 as i32), Some(t.2 as i32)) {
                Ok(v) => Ok(combined(v)),
                Err(e) => Err(e),
            },
            None => {
                if c.len() == 4 && all_digits(c) {
                    year_only_outcome(c, day, month)
                } else {
                    match serial_date(c, excel) {
                        Some(d) => Ok(Some(d)),
                        None => general_outcome(s, c, day, format, roman, current_year),
                    }
                }
            },
        }
    }
}

proof fn lemma_fast_path_year(s: Seq<char>, format: Seq<char>)
    ensures
        fast_path(s, format) matches Some(t) ==> t.2 <= 9999,
{
    if s.len() == 10 && all_digits(s.subrange(0, 4)) {
        lemma_decimal_bound(s.subrange(0, 4));
    }
    if s.len() == 10 && all_digits(s.subrange(6, 10)) {
        lemma_decimal_bound(s.subrange(6, 10));
    }
    if s.len() == 8 && all_digits(s.subrange(6, 8)) {
        lemma_decimal_bound(s.subrange(6, 8));
    }
    if s.len() >= 5 && all_digits(s.subrange(0, 2)) && all_digits(s.subrange(3, 5)) {
        lemma_decimal_bound(s.subrange(0, 2));
        lemma_decimal_bound(s.subrange(3, 5));
    }
}

proof fn lemma_parsed_complete(tokens: Seq<Seq<char>>, format: Seq<char>, day: Imputation)
    ensures
        parsed(tokens, format, day) matches Ok(t) ==> t.0 is Some && t.1 is Some && t.2 is Some
            && 0 <= t.2->0 <= 9999,
{
    if tokens.len() >= 1 && all_digits(tokens[0]) {
        lemma_decimal_bound(tokens[0]);
    }
    if tokens.len() >= 2 && all_digits(tokens[1]) {
        lemma_decimal_bound(tokens[1]);
    }
    if tokens.len() >= 3 && all_digits(tokens[2]) {
        lemma_decimal_bound(tokens[2]);
    }
}

/// The components with month names rewritten, one by one.
fn convert_all(pieces: &Vec<Vec<char>>) -> (r: Vec<Vec<char>>)
    ensures
        char_views(r@) == char_views(pieces@).map_values(|w: Seq<char>| month_converted(w)),
{
    let mut r: Vec<Vec<char>> = Vec::new();
    let mut i: usize = 0;
    while i < pieces.len()
        invariant
            i <= pieces@.len(),
            char_views(r@) == char_views(pieces@).map_values(|w: Seq<char>| month_converted(w)).take(
                i as int,
            ),
        decreases pieces.len() - i,
    {
        let ghost before = r@;
        let (w, _) = convert_chars(&pieces[i]);
        r.push(w);
        assert(char_views(r@) =~= char_views(before).push(month_converted(pieces@[i as int]@)));
        i = i + 1;
        assert(char_views(r@) =~= char_views(pieces@).map_values(|w: Seq<char>| month_converted(w)).take(
            i as int,
        ));
    }
    assert(char_views(pieces@).map_values(|w: Seq<char>| month_converted(w)).take(i as int)
        =~= char_views(pieces@).map_values(|w: Seq<char>| month_converted(w)));
    r
}

fn has_oversized_component(tokens: &Vec<String>) -> (r: bool)
    ensures
        r == exists|i: int|
            0 <= i < string_views(tokens@).len() && ((#[trigger] string_views(tokens@)[i]).len() > 6
                || (all_digits(string_views(tokens@)[i]) && string_views(tokens@)[i].len() > 4)),
{
    let ghost tv = string_views(tokens@);
    let mut i: usize = 0;
    while i < tokens.len()
        invariant
            tv == string_views(tokens@),
            i <= tokens@.len(),
            forall|j: int|
                0 <= j < i ==> !((#[trigger] tv[j]).len() > 6 || (all_digits(tv[j]) && tv[j].len()
                    > 4)),
        decreases tokens.len() - i,
    {
        let n = tokens[i].as_str().unicode_len();
        if n > 6 || (crate::parse::is_numeric(tokens[i].as_str()) && n > 4) {
            assert(tv[i as int] == tokens@[i as int]@);
            return true;
        }
        i = i + 1;
    }
    false
}

fn general_pipeline(
    s: &Vec<char>,
    c: &Vec<char>,
    day_impute: Imputation,
    format: &str,
    roman_numeral: bool,
    current_year: i32,
) -> (r: Result<Option<String>, DateError>)
    ensures
        outcome_view(r) == general_outcome(s@, c@, day_impute, format@, roman_numeral, current_year),
{
    let pieces = separate_chars(c);
    let raw = strings_of(&pieces);
    let effective: &str = if crate::lexicon::first_is_month(raw.as_slice()) {
        "mdy"
    } else if pieces.len() > 1 && month_number(&to_lower(&pieces[1])).is_some() {
        "dmy"
    } else {
        format
    };
    assert(effective@ == effective_format(separated(c@), format@));
    let mut tokens = strings_of(&convert_all(&pieces));
    if roman_numeral {
        tokens = crate::lexicon::roman_conversion(tokens);
    }
    assert(string_views(tokens@) == resolved_tokens(c@, roman_numeral));
    if s.len() > 200 || has_oversized_component(&tokens) {
        return Err(DateError::Untidy);
    }
    let tokens = crate::parse::append_year_at(tokens, current_year);
    proof {
        lemma_parsed_complete(string_views(tokens@), effective@, day_impute);
    }
    match crate::parse::parse_date_components(tokens.as_slice(), effective, day_impute) {
        Err(DateError::SkipRequested) => Ok(None),
        Err(e) => Err(e),
        Ok((d, m, y)) => {
            proof {
                lemma_validated_ranges(d, m, y);
            }
            finish(check_output(d, m, y))
        },
    }
}

/// Normalises one date string, given the current year (which decides the
/// century of two-digit years); see `date_outcome`.
pub fn process_date_pipeline(
    date_str: &str,
    day_impute: Imputation,
    month_impute: Imputation,
    format: &str,
    excel: bool,
    roman_numeral: bool,
    current_year: i32,
) -> (r: Result<Option<String>, DateError>)
    ensures
        outcome_view(r) == date_outcome(
            date_str@,
            day_impute,
            month_impute,
            format@,
            excel,
            roman_numeral,
            current_year,
        ),
{
    let s = chars_of(date_str);
    if s.len() == 0 || same_chars(&s, "NA") {
        return Ok(None);
    }
    let c = clean_chars(date_str);
    let cleaned_str = string_of(&c);
    if let Some((d, m, y)) = fast_path_parse_date(cleaned_str.as_str(), format) {
        proof {
            lemma_fast_path_year(c@, format@);
            lemma_validated_ranges(Some(d as i32), Some(m as i32), Some(y as i32));
        }
        return finish(check_output(Some(d as i32), Some(m as i32), Some(y as i32)));
    }
    if c.len() == 4 && crate::parse::is_numeric(cleaned_str.as_str()) {
        return handle_year_only_date(cleaned_str.as_str(), day_impute, month_impute);
    }
    if let Some(d) = handle_numeric_dates(cleaned_str.as_str(), excel) {
        return Ok(Some(d));
    }
    general_pipeline(&s, &c, day_impute, format, roman_numeral, current_year)
}

/// Normalises one date string, taking the century pivot from the clock.
pub fn fix_date_native(
    date_str: &str,
    day_impute: Imputation,
    month_impute: Imputation,
    format: &str,
    excel: bool,
    roman_numeral: bool,
) -> (r: Result<Option<String>, DateError>)
    ensures
        exists|y: i32|
            outcome_view(r) == date_outcome(
                date_str@,
                day_impute,
                month_impute,
                format@,
                excel,
                roman_numeral,
                y,
            ),
{
    let now = crate::parse::current_year();
    process_date_pipeline(date_str, day_impute, month_impute, format, excel, roman_numeral, now)
}

/// An outcome with its soft failures turned into an unresolved date.
pub open spec fn softened(o: Result<Option<Seq<char>>, DateError>) -> Result<
    Option<Seq<char>>,
    DateError,
> {
    match o {
        Err(e) => if e.fatal() {
            Err(e)
        } else {
            Ok(None)
        },
        _ => o,
    }
}

fn soften(r: Result<Option<String>, DateError>) -> (out: Result<Option<String>, DateError>)
    ensures
        outcome_view(out) == softened(outcome_view(r)),
{
    match r {
        Err(e) => if e.is_fatal() {
            Err(e)
        } else {
            Ok(None)
        },
        _ => r,
    }
}

/// Normalises one date of a batch: fatal failures are returned, soft ones
/// leave the date unresolved.
pub fn process_single_date_with_error_handling(
    date: &str,
    day_impute: Imputation,
    month_impute: Imputation,
    format: &str,
    excel: bool,
    roman_numeral: bool,
) -> (r: Result<Option<String>, DateError>)
    ensures
        exists|y: i32|
            outcome_view(r) == softened(
                date_outcome(date@, day_impute, month_impute, format@, excel, roman_numeral, y),
            ),
{
    let now = crate::parse::current_year();
    soften(process_date_pipeline(date, day_impute, month_impute, format, excel, roman_numeral, now))
}

pub open spec fn option_view(o: Option<String>) -> Option<Seq<char>> {
    match o {
        Some(s) => Some(s@),
        None => None,
    }
}

/// The outcome of one date of a batch.
pub open spec fn item_outcome(
    s: Seq<char>,
    day: Imputation,
    month: Imputation,
    format: Seq<char>,
    excel: bool,
    roman: bool,
    current_year: i32,
) -> Result<Option<Seq<char>>, DateError> {
    softened(date_outcome(s, day, month, format, excel, roman, current_year))
}

/// Does `r` give, for the dates in `dates`, either one outcome per date in
/// order (when none fails fatally), or the first fatal failure?
pub open spec fn batch_result(
    dates: Seq<String>,
    r: Result<Vec<Option<String>>, DateError>,
    day: Imputation,
    month: Imputation,
    format: Seq<char>,
    excel: bool,
    roman: bool,
    current_year: i32,
) -> bool {
    match r {
        Ok(v) => {
            &&& v@.len() == dates.len()
            &&& forall|i: int|
                0 <= i < dates.len() ==> item_outcome(
                    #[trigger] dates[i]@,
                    day,
                    month,
                    format,
                    excel,
                    roman,
                    current_year,
                ) == Ok::<Option<Seq<char>>, DateError>(option_view(v@[i]))
        },
        Err(e) => exists|k: int|
            0 <= k < dates.len() && item_outcome(
                #[trigger] dates[k]@,
                day,
                month,
                format,
                excel,
                roman,
                current_year,
            ) == Err::<Option<Seq<char>>, DateError>(e) && forall|j: int|
                0 <= j < k ==> (item_outcome(
                    #[trigger] dates[j]@,
                    day,
                    month,
                    format,
                    excel,
                    roman,
                    current_year,
                ) is Ok),
    }
}

/// Normalises a column of dates with one configuration, given the current
/// year. The output has one entry per input, in the same order; the first
/// fatal failure aborts the whole column.
pub fn fix_date_column_at(
    dates: &Vec<String>,
    day_impute: Imputation,
    month_impute: Imputation,
    format: &str,
    excel: bool,
    roman_numeral: bool,
    current_year: i32,
) -> (r: Result<Vec<Option<String>>, DateError>)
    ensures
        batch_result(dates@, r, day_impute, month_impute, format@, excel, roman_numeral, current_year),
{
    let mut out: Vec<Option<String>> = Vec::new();
    let mut i: usize = 0;
    while i < dates.len()
        invariant
            i <= dates@.len(),
            out@.len() == i,
            forall|j: int|
                0 <= j < i ==> item_outcome(
                    #[trigger] dates@[j]@,
                    day_impute,
                    month_impute,
                    format@,
                    excel,
                    roman_numeral,
                    current_year,
                ) == Ok::<Option<Seq<char>>, DateError>(option_view(out@[j])),
        decreases dates.len() - i,
    {
        let r = soften(
            process_date_pipeline(
                dates[i].as_str(),
                day_impute,
                month_impute,
                format,
                excel,
                roman_numeral,
                current_year,
            ),
        );
        match r {
            Ok(v) => {
                out.push(v);
            },
            Err(e) => {
                assert(item_outcome(
                    dates@[i as int]@,
                    day_impute,
                    month_impute,
                    format@,
                    excel,
                    roman_numeral,
                    current_year,
                ) == Err::<Option<Seq<char>>, DateError>(e));
                return Err(e);
            },
        }
        i = i + 1;
    }
    Ok(out)
}

/// Normalises a column of dates with one configuration, taking the century
/// pivot from the clock once for the whole column.
pub fn fix_date_column(
    dates: &Vec<String>,
    day_impute: Imputation,
    month_impute: Imputation,
    format: &str,
    excel: bool,
    roman_numeral: bool,
) -> (r: Result<Vec<Option<String>>, DateError>)
    ensures
        exists|y: i32| batch_result(dates@, r, day_impute, month_impute, format@, excel, roman_numeral, y),
{
    let now = crate::parse::current_year();
    fix_date_column_at(dates, day_impute, month_impute, format, excel, roman_numeral, now)
}

/// A date that the canonical form can hold: a year of at most four digits,
/// a month in 1 to 12, a day within its month.
pub open spec fn valid_date(y: int, m: int, d: int) -> bool {
    0 <= y <= 9999 && 1 <= m <= 12 && 1 <= d <= days_in_month(m, y)
}

proof fn lemma_digit(n: int)
    requires
        0 <= n <= 9,
    ensures
        '0' <= digit(n) <= '9',
        digit(n) as int - '0' as int == n,
{
}

proof fn lemma_two_digits(n: int)
    requires
        0 <= n <= 99,
    ensures
        all_digits(two_digits(n)),
        decimal(two_digits(n)) == n,
{
    let s = two_digits(n);
    reveal_with_fuel(decimal, 3);
    lemma_digit(n / 10);
    lemma_digit(n % 10);
    assert(s.drop_last() =~= seq![digit(n / 10)]);
    assert(s.drop_last().drop_last() =~= Seq::<char>::empty());
}

proof fn lemma_four_digits(n: int)
    requires
        0 <= n <= 9999,
    ensures
        all_digits(four_digits(n)),
        decimal(four_digits(n)) == n,
{
    let s = four_digits(n);
    reveal_with_fuel(decimal, 5);
    lemma_digit(n / 1000);
    lemma_digit((n / 100) % 10);
    lemma_digit((n / 10) % 10);
    lemma_digit(n % 10);
    assert(s.drop_last() =~= seq![digit(n / 1000), digit((n / 100) % 10), digit((n / 10) % 10)]);
    assert(s.drop_last().drop_last() =~= seq![digit(n / 1000), digit((n / 100) % 10)]);
    assert(s.drop_last().drop_last().drop_last() =~= seq![digit(n / 1000)]);
    assert(s.drop_last().drop_last().drop_last().drop_last() =~= Seq::<char>::empty());
}

/// Only digits and dashes.
spec fn plain(s: Seq<char>) -> bool {
    forall|i: int| 0 <= i < s.len() ==> ascii_digit(#[trigger] s[i]) || s[i] == '-'
}

proof fn lemma_plain_skip(s: Seq<char>, k: int)
    requires
        plain(s),
        0 <= k <= s.len(),
    ensures
        plain(s.skip(k)),
{
    assert forall|i: int| 0 <= i < s.skip(k).len() implies ascii_digit(#[trigger] s.skip(k)[i])
        || s.skip(k)[i] == '-' by {
        assert(s.skip(k)[i] == s[i + k]);
    }
}

proof fn lemma_plain_without_ordinals(s: Seq<char>)
    requires
        plain(s),
    ensures
        without_ordinals(s) == s,
    decreases s.len(),
{
    if s.len() > 0 {
        lemma_plain_skip(s, 1);
        lemma_plain_without_ordinals(s.skip(1));
        if s.len() >= 3 {
            assert(ascii_digit(s[1]) || s[1] == '-');
        }
        assert(seq![s[0]] + s.skip(1) =~= s);
    }
}

/// A replacement whose pattern starts with a letter leaves a plain
/// sequence as it is.
proof fn lemma_plain_replaced(s: Seq<char>, from: Seq<char>, to: Seq<char>)
    requires
        plain(s),
        from.len() > 0,
        !ascii_digit(from[0]),
        from[0] != '-',
    ensures
        replaced(s, from, to) == s,
    decreases s.len(),
{
    if s.len() > 0 {
        assert(!occurs_at(s, 0, from)) by {
            if occurs_at(s, 0, from) {
                assert(s.subrange(0, from.len() as int)[0] == s[0]);
            }
        };
        lemma_plain_skip(s, 1);
        lemma_plain_replaced(s.skip(1), from, to);
        assert(seq![s[0]] + s.skip(1) =~= s);
    }
}

/// Cleaning leaves a canonical date as it is.
proof fn lemma_canonical_is_clean(y: int, m: int, d: int)
    requires
        valid_date(y, m, d),
    ensures
        cleaned(canonical(y, m, d)) == canonical(y, m, d),
{
    let s = canonical(y, m, d);
    lemma_digit(y / 1000);
    lemma_digit((y / 100) % 10);
    lemma_digit((y / 10) % 10);
    lemma_digit(y % 10);
    lemma_digit(m / 10);
    lemma_digit(m % 10);
    lemma_digit(d / 10);
    lemma_digit(d % 10);
    assert(plain(s));
    lemma_plain_without_ordinals(s);
    reveal_strlit("le ");
    reveal_strlit("Le ");
    reveal_strlit("1er");
    reveal_strlit("марта");
    reveal_strlit("Марта");
    reveal_strlit("августа");
    reveal_strlit("Августа");
    lemma_plain_replaced(s, "le "@, " "@);
    lemma_plain_replaced(s, "Le "@, " "@);
    lemma_plain_replaced(s, "марта"@, "март"@);
    lemma_plain_replaced(s, "Марта"@, "Март"@);
    lemma_plain_replaced(s, "августа"@, "август"@);
    lemma_plain_replaced(s, "Августа"@, "Август"@);
    assert(replaced(s, "1er"@, "01"@) == s) by {
        assert forall|i: int| 0 <= i <= s.len() implies !occurs_at(s, i, "1er"@) by {
            if occurs_at(s, i, "1er"@) {
                assert(s.subrange(i, i + 3)[1] == s[i + 1]);
            }
        };
        lemma_replaced_nowhere(s, "1er"@, "01"@);
    };
    assert(!white_space(s[0]) && !white_space(s.last()));
}

/// Round trip: the canonical form of a valid date reads back, under any
/// format, as that same day, month and year, which validation keeps.
pub proof fn lemma_round_trip(y: int, m: int, d: int, format: Seq<char>)
    requires
        valid_date(y, m, d),
    ensures
        fast_path(canonical(y, m, d), format) == Some((d as u8, m as u8, y as u16)),
        validated(Some(d as i32), Some(m as i32), Some(y as i32)) == Ok::<Components, DateError>(
            (Some(d as i32), Some(m as i32), Some(y as i32)),
        ),
{
    let s = canonical(y, m, d);
    lemma_four_digits(y);
    lemma_two_digits(m);
    lemma_two_digits(d);
    assert(s.subrange(0, 4) =~= four_digits(y));
    assert(s.subrange(5, 7) =~= two_digits(m));
    assert(s.subrange(8, 10) =~= two_digits(d));
    assert(s[4] == '-' && s[7] == '-');
}

/// Idempotence: a canonical date comes back unchanged from the pipeline,
/// whatever the configuration.
pub proof fn lemma_canonical_fixed_point(
    y: int,
    m: int,
    d: int,
    day: Imputation,
    month: Imputation,
    format: Seq<char>,
    excel: bool,
    roman: bool,
    current_year: i32,
)
    requires
        valid_date(y, m, d),
    ensures
        date_outcome(canonical(y, m, d), day, month, format, excel, roman, current_year) == Ok::<
            Option<Seq<char>>,
            DateError,
        >(Some(canonical(y, m, d))),
{
    lemma_round_trip(y, m, d, format);
    lemma_canonical_is_clean(y, m, d);
    reveal_strlit("NA");
    assert(canonical(y, m, d).len() == 10);
}

} // verus!

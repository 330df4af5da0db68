use datefixr::normalize::{clean_date_string_combined, replace_all_optimized};
use datefixr::split::separate_date_optimized;
use std::borrow::Cow;
use datefixr::calendar::check_output;
use datefixr::error::Imputation::{Skip, Unspecified, Value};
use datefixr::error::{Component, DateError, Imputation};
use datefixr::lexicon::{convert_text_month_optimized, fast_month_lookup};
use datefixr::messages::{init_translations, unresolved_warning, Language};
use datefixr::parse::{append_year_at, parse_date_components, year_prefix_at};
use datefixr::pipeline::{
    fix_date_column_at, fix_date_native, handle_numeric_dates, process_date_pipeline,
};

fn fix(date: &str, format: &str) -> Result<Option<String>, DateError> {
    process_date_pipeline(date, Imputation::Value(1), Imputation::Value(1), format, false, false, 2025)
}

#[test]
fn scenario_dmy_slash() {
    assert_eq!(fix("15/06/2020", "dmy"), Ok(Some("2020-06-15".to_string())));
}

#[test]
fn scenario_mdy_slash() {
    assert_eq!(fix("06/15/2020", "mdy"), Ok(Some("2020-06-15".to_string())));
}

#[test]
fn scenario_february_clamped() {
    assert_eq!(fix("30/02/2021", "dmy"), Ok(Some("2021-02-28".to_string())));
}

#[test]
fn scenario_leap_day_kept() {
    assert_eq!(fix("29/02/2020", "dmy"), Ok(Some("2020-02-29".to_string())));
}

#[test]
fn scenario_year_only() {
    let r = process_date_pipeline("1994", Value(15), Value(6), "dmy", false, false, 2025);
    assert_eq!(r, Ok(Some("1994-06-15".to_string())));
    let r = process_date_pipeline("1994", Value(15), Skip, "dmy", false, false, 2025);
    assert_eq!(r, Ok(None));
}

#[test]
fn scenario_month_and_year() {
    let r = process_date_pipeline("06/2020", Value(25), Value(1), "dmy", false, false, 2025);
    assert_eq!(r, Ok(Some("2020-06-25".to_string())));
    let r = process_date_pipeline("06/2020", Unspecified, Value(1), "dmy", false, false, 2025);
    assert_eq!(r, Err(DateError::MissingDay));
}

#[test]
fn scenario_french_month_name() {
    for format in ["dmy", "mdy", "xyz", ""] {
        assert_eq!(fix("15 janvier 2020", format), Ok(Some("2020-01-15".to_string())));
    }
}

#[test]
fn scenario_empty_and_na() {
    assert_eq!(fix("", "dmy"), Ok(None));
    assert_eq!(fix("NA", "dmy"), Ok(None));
}

#[test]
fn canonical_input_is_a_fixed_point() {
    for date in ["2020-06-15", "0000-01-01", "9999-12-31", "2024-02-29"] {
        assert_eq!(fix(date, "mdy"), Ok(Some(date.to_string())));
        assert_eq!(fix(date, "dmy"), Ok(Some(date.to_string())));
    }
}

#[test]
fn round_trip_through_day_month_year() {
    assert_eq!(fix("07/03/1999", "dmy"), Ok(Some("1999-03-07".to_string())));
    assert_eq!(fix("1999-03-07", "dmy"), Ok(Some("1999-03-07".to_string())));
}

#[test]
fn leap_year_rules() {
    assert_eq!(check_output(Some(31), Some(2), Some(2024)), Ok((Some(29), Some(2), Some(2024))));
    assert_eq!(check_output(Some(31), Some(2), Some(1900)), Ok((Some(28), Some(2), Some(1900))));
    assert_eq!(check_output(Some(31), Some(2), Some(2000)), Ok((Some(29), Some(2), Some(2000))));
    assert_eq!(check_output(Some(31), Some(2), Some(2023)), Ok((Some(28), Some(2), Some(2023))));
}

#[test]
fn month_out_of_range_is_fatal() {
    assert_eq!(check_output(Some(15), Some(0), Some(2020)), Err(DateError::MonthOutOfRange));
    assert_eq!(check_output(Some(99), Some(13), None), Err(DateError::MonthOutOfRange));
    assert_eq!(check_output(None, Some(-4), None), Err(DateError::MonthOutOfRange));
}

#[test]
fn day_range_and_clamp() {
    assert_eq!(check_output(Some(0), Some(6), Some(2020)), Err(DateError::DayOutOfRange));
    assert_eq!(check_output(Some(32), Some(6), Some(2020)), Err(DateError::DayOutOfRange));
    assert_eq!(check_output(Some(31), Some(4), Some(2020)), Ok((Some(30), Some(4), Some(2020))));
    assert_eq!(check_output(Some(31), Some(12), Some(2020)), Ok((Some(31), Some(12), Some(2020))));
}

#[test]
fn two_digit_year_pivot() {
    assert_eq!(year_prefix_at("25", 2025), "2025");
    assert_eq!(year_prefix_at("26", 2025), "1926");
    assert_eq!(year_prefix_at("00", 2025), "2000");
    assert_eq!(year_prefix_at("99", 2099), "2099");
    assert_eq!(year_prefix_at("5", 2025), "5");
    let v = vec!["1".to_string(), "2".to_string(), "30".to_string()];
    assert_eq!(append_year_at(v, 2025), vec!["1", "2", "1930"]);
    let v = vec!["10".to_string(), "2".to_string(), "2030".to_string()];
    assert_eq!(append_year_at(v, 2025), vec!["10", "2", "2030"]);
}

#[test]
fn general_path_two_digit_year() {
    let r = process_date_pipeline("5 6 24", Imputation::Value(1), Imputation::Value(1), "dmy", false, false, 2025);
    assert_eq!(r, Ok(Some("2024-06-05".to_string())));
    let r = process_date_pipeline("5 6 26", Imputation::Value(1), Imputation::Value(1), "dmy", false, false, 2025);
    assert_eq!(r, Ok(Some("1926-06-05".to_string())));
}

#[test]
fn batch_keeps_length_and_order() {
    let dates: Vec<String> =
        ["15/06/2020", "", "1 janvier 2001", "NA", "2021-12-31"].iter().map(|s| s.to_string()).collect();
    let r = fix_date_column_at(&dates, Imputation::Value(1), Imputation::Value(1), "dmy", false, false, 2025)
        .unwrap();
    assert_eq!(
        r,
        vec![
            Some("2020-06-15".to_string()),
            None,
            Some("2001-01-01".to_string()),
            None,
            Some("2021-12-31".to_string()),
        ]
    );
    let empty: Vec<String> = Vec::new();
    let r = fix_date_column_at(&empty, Imputation::Value(1), Imputation::Value(1), "dmy", false, false, 2025);
    assert_eq!(r, Ok(vec![]));
}

#[test]
fn batch_stops_at_first_fatal_failure() {
    let dates: Vec<String> =
        ["15/06/2020", "32 06 2020", "15 13 2020"].iter().map(|s| s.to_string()).collect();
    let r = fix_date_column_at(&dates, Imputation::Value(1), Imputation::Value(1), "dmy", false, false, 2025);
    assert_eq!(r, Err(DateError::DayOutOfRange));
}

#[test]
fn batch_leaves_soft_failures_unresolved() {
    let dates: Vec<String> = ["hello", "15/06/2020"].iter().map(|s| s.to_string()).collect();
    let r = fix_date_column_at(&dates, Imputation::Value(1), Imputation::Value(1), "dmy", false, false, 2025);
    assert_eq!(r, Ok(vec![None, Some("2020-06-15".to_string())]));
}

#[test]
fn each_failure_has_an_input() {
    let run = |d: &str, day: Imputation, month: Imputation, f: &str| {
        process_date_pipeline(d, day, month, f, false, false, 2025)
    };
    assert_eq!(run("15 06 2020", Value(1), Value(1), "ymd"), Err(DateError::InvalidFormat));
    assert_eq!(run("15 13 2020", Value(1), Value(1), "dmy"), Err(DateError::MonthOutOfRange));
    assert_eq!(run("32 06 2020", Value(1), Value(1), "dmy"), Err(DateError::DayOutOfRange));
    assert_eq!(run("06 2020", Unspecified, Value(1), "dmy"), Err(DateError::MissingDay));
    assert_eq!(run("2020", Value(1), Unspecified, "dmy"), Err(DateError::MissingMonth));
    assert_eq!(run("15 06 2020000", Value(1), Value(1), "dmy"), Err(DateError::Untidy));
    assert_eq!(run("ab 06 2020", Value(1), Value(1), "dmy"), Err(DateError::InvalidComponent(Component::Day)));
    assert_eq!(run("15 x 2020", Value(1), Value(1), "dmy"), Err(DateError::InvalidComponent(Component::Month)));
    assert_eq!(run("6 123", Value(1), Value(1), "dmy"), Err(DateError::AmbiguousFormat));
    assert_eq!(run("hello", Value(1), Value(1), "dmy"), Err(DateError::InsufficientComponents));
    let v = vec!["2020".to_string(), "06".to_string()];
    assert_eq!(parse_date_components(&v, "dmy", Imputation::Skip), Err(DateError::SkipRequested));
    let v = vec!["20x0".to_string(), "06".to_string(), "01".to_string()];
    assert_eq!(parse_date_components(&v, "dmy", Value(1)), Err(DateError::InvalidComponent(Component::Year)));
    assert!(!DateError::InsufficientComponents.is_fatal());
    assert!(!DateError::SkipRequested.is_fatal());
    assert!(DateError::NotCharacter.is_fatal());
    assert_eq!(DateError::NotCharacter.message(), "date should be a character");
}

#[test]
fn serial_dates() {
    assert_eq!(handle_numeric_dates("44927", true), Some("2023-01-01".to_string()));
    assert_eq!(handle_numeric_dates("18628", false), Some("2021-01-01".to_string()));
    assert_eq!(handle_numeric_dates("2958465", true), Some("9999-12-31".to_string()));
    assert_eq!(handle_numeric_dates("2958466", true), None);
    assert_eq!(handle_numeric_dates("3000001", false), None);
    let r = process_date_pipeline("44927", Imputation::Value(1), Imputation::Value(1), "dmy", true, false, 2025);
    assert_eq!(r, Ok(Some("2023-01-01".to_string())));
    let r = process_date_pipeline("2958466", Imputation::Value(1), Imputation::Value(1), "dmy", true, false, 2025);
    assert_eq!(r, Err(DateError::Untidy));
}

#[test]
fn month_lookup_ignores_case() {
    assert_eq!(fast_month_lookup("JANUARY"), Some(1));
    assert_eq!(fast_month_lookup("Août"), Some(8));
    assert_eq!(fast_month_lookup("Декабря"), Some(12));
    assert_eq!(fast_month_lookup("monday"), None);
    assert_eq!(convert_text_month_optimized("Monday 2020"), "monday 2020");
    assert_eq!(convert_text_month_optimized("15 (mars) 2020"), "15 03 2020");
    assert_eq!(convert_text_month_optimized("15 06 2020"), "15 06 2020");
}

#[test]
fn english_ordinal_date() {
    let r = process_date_pipeline("July 4th, 1776", Imputation::Value(1), Imputation::Value(1), "dmy", false, false, 2025);
    assert_eq!(r, Ok(Some("1776-07-04".to_string())));
    let r = process_date_pipeline("20 de abril de 1994", Imputation::Value(1), Imputation::Value(1), "mdy", false, false, 2025);
    assert_eq!(r, Ok(Some("1994-04-20".to_string())));
    let r = process_date_pipeline("15.06.2020", Imputation::Value(1), Imputation::Value(1), "dmy", false, false, 2025);
    assert_eq!(r, Ok(Some("2020-06-15".to_string())));
}

#[test]
fn clock_driven_entry_point() {
    let r = fix_date_native("15/06/2020", Imputation::Value(1), Imputation::Value(1), "dmy", false, false);
    assert_eq!(r, Ok(Some("2020-06-15".to_string())));
}

#[test]
fn diagnostics() {
    assert_eq!(
        unresolved_warning(Language::English, "06/15", Some("subject 7")),
        "NA imputed for subject subject 7 (date: 06/15 )"
    );
    assert_eq!(unresolved_warning(Language::English, "06/15", None), "NA imputed (date: 06/15");
    assert_eq!(
        unresolved_warning(Language::French, "x", None),
        "NA imputé (date: x"
    );
    assert_eq!(init_translations("C"), Language::English);
    assert_eq!(init_translations("portuguese"), Language::Portuguese);
    assert_eq!(DateError::DayOutOfRange.localized(Language::German), "Tag nicht im erwarteten Bereich\n");
    assert_eq!(DateError::Untidy.localized(Language::English), "unable to tidy a date");
}

#[test]
fn year_in_middle_position() {
    assert_eq!(fix("15 2020 06", "dmy"), Ok(Some("2020-06-15".to_string())));
    assert_eq!(fix("06 2020 15", "mdy"), Ok(Some("2020-06-15".to_string())));
    assert_eq!(fix("06 2020 15", "xyz"), Err(DateError::InvalidFormat));
}

#[test]
fn fixed_width_dates_are_read_after_cleaning() {
    assert_eq!(fix(" 2020-06-15 ", "dmy"), Ok(Some("2020-06-15".to_string())));
    // the fixed-width reading puts 28 in the 2000s whatever the current year
    assert_eq!(fix(" 15/06/28 ", "dmy"), Ok(Some("2028-06-15".to_string())));
}

#[test]
fn month_names_are_rewritten_word_by_word() {
    assert_eq!(convert_text_month_optimized("mar marzo"), "03 03");
    assert_eq!(convert_text_month_optimized("15 janvier\t2020"), "15 01\t2020");
    assert_eq!(convert_text_month_optimized("1 mai mai"), "1 05 05");
    assert_eq!(convert_text_month_optimized("July 4th, 1776"), "07 4th, 1776");
}

#[test]
fn white_space_separates_components() {
    assert_eq!(separate_date_optimized("01\t02\t2020"), vec!["01", "02", "2020"]);
    assert_eq!(separate_date_optimized("15.\u{a0}06.2020"), vec!["15", "06", "2020"]);
    assert_eq!(fix("15\t06\t2020", "dmy"), Ok(Some("2020-06-15".to_string())));
}

#[test]
fn cleaning_borrows_untouched_input() {
    assert!(matches!(clean_date_string_combined("25/12/2020"), Cow::Borrowed(_)));
    assert!(matches!(clean_date_string_combined(" 25/12/2020 "), Cow::Owned(_)));
    assert_eq!(clean_date_string_combined(" 25/12/2020 "), "25/12/2020");
    assert!(matches!(clean_date_string_combined("1st May"), Cow::Owned(_)));
    assert!(matches!(replace_all_optimized("a b", &[("x", "y"), ("b", "c")]), Cow::Owned(_)));
    assert!(matches!(replace_all_optimized("a b", &[("x", "y")]), Cow::Borrowed(_)));
    assert!(matches!(replace_all_optimized("a b", &[("", "y")]), Cow::Owned(_)));
}

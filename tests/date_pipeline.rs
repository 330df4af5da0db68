use datefixr::calendar::check_output;
use datefixr::error::Imputation::{Skip, Unspecified, Value};
use datefixr::error::{day_impute_in_range, Imputation};
use datefixr::lexicon::{convert_text_month_optimized, first_is_month, roman_conversion};
use datefixr::normalize::rm_ordinal_suffixes_optimized;
use datefixr::parse::{is_numeric, parse_date_components, validate_year_length, year_prefix};
use datefixr::pipeline::{
    handle_numeric_dates, handle_year_only_date, process_date_pipeline,
    process_single_date_with_error_handling,
};
use datefixr::split::separate_date_optimized;

// The range rule of the library, behind the integer check that a caller
// holding a floating-point value makes first.
fn validate_day_range(val: f64) -> std::result::Result<(), String> {
    if val.fract() != 0.0 {
        return Err("day.impute should be an integer".into());
    }
    if !day_impute_in_range(val as i64) {
        return Err("day.impute should be an integer between 1 and 31".into());
    }
    Ok(())
}

#[test]
fn test_checkday_errors() {
    assert!(validate_day_range(0.0).is_err());
    assert!(validate_day_range(32.0).is_err());
    assert!(validate_day_range(15.5).is_err());
}

#[test]
fn test_checkday_passes() {
    for day in 1..=31 {
        assert!(validate_day_range(day as f64).is_ok(), "Day {} should pass", day);
    }
}

#[test]
fn test_rm_ordinal_suffixes() {
    assert_eq!(rm_ordinal_suffixes_optimized("1st January"), "1 January");
    assert_eq!(rm_ordinal_suffixes_optimized("2nd February"), "2 February");
    assert_eq!(rm_ordinal_suffixes_optimized("3rd March"), "3 March");
    assert_eq!(rm_ordinal_suffixes_optimized("4th April"), "4 April");
}

#[test]
fn test_separate_date() {
    assert_eq!(separate_date_optimized("01/02/2020"), vec!["01", "02", "2020"]);
    assert_eq!(separate_date_optimized("01-02-2020"), vec!["01", "02", "2020"]);
    assert_eq!(separate_date_optimized("01 02 2020"), vec!["01", "02", "2020"]);
    assert_eq!(separate_date_optimized("01 de febrero del 2020"), vec!["01", "febrero", "2020"]);
}

#[test]
fn test_convert_text_month() {
    assert_eq!(convert_text_month_optimized("january 2020"), "01 2020");
    assert_eq!(convert_text_month_optimized("février 2020"), "02 2020");
    assert_eq!(convert_text_month_optimized("march 2020"), "03 2020");
    assert_eq!(convert_text_month_optimized("декабрь 2020"), "12 2020");
    assert_eq!(convert_text_month_optimized("20 abril 1994"), "20 04 1994");
    assert_eq!(convert_text_month_optimized("06 enero 2008"), "06 01 2008");
}

#[test]
fn test_year_prefix() {
    // the current year is 2023 or later: 23 is at or below the pivot
    assert_eq!(year_prefix("23"), "2023");
    assert_eq!(year_prefix("99"), "1999");
    assert_eq!(year_prefix("2020"), "2020");
}

#[test]
fn test_is_numeric() {
    assert!(is_numeric("12345"));
    assert!(!is_numeric("123a5"));
    assert!(!is_numeric("hello"));
    assert!(is_numeric("0"));
}

#[test]
fn test_first_is_month() {
    assert!(first_is_month(&vec!["january".to_string(), "1".to_string(), "2020".to_string()]));
    assert!(first_is_month(&vec!["février".to_string(), "1".to_string(), "2020".to_string()]));
    assert!(!first_is_month(&vec!["1".to_string(), "january".to_string(), "2020".to_string()]));
    assert!(!first_is_month(&vec!["32".to_string(), "1".to_string(), "2020".to_string()]));
}

#[test]
fn test_roman_conversion() {
    let date_vec = vec!["1".to_string(), "ii".to_string(), "2020".to_string()];
    let result = roman_conversion(date_vec);
    assert_eq!(result, vec!["1", "02", "2020"]);

    let date_vec = vec!["15".to_string(), "xii".to_string(), "2020".to_string()];
    let result = roman_conversion(date_vec);
    assert_eq!(result, vec!["15", "12", "2020"]);
}

#[test]
fn test_check_output() {
    let result = check_output(Some(15), Some(6), Some(2020)).unwrap();
    assert_eq!(result, (Some(15), Some(6), Some(2020)));

    assert!(check_output(Some(15), Some(13), Some(2020)).is_err());

    let result = check_output(Some(29), Some(2), Some(2020)).unwrap();
    assert_eq!(result, (Some(29), Some(2), Some(2020)));

    let result = check_output(Some(29), Some(2), Some(2021)).unwrap();
    assert_eq!(result, (Some(28), Some(2), Some(2021)));
}

#[test]
fn test_spanish_date_parsing() {
    let spanish_date = "20 de abril de 1994";
    let separated = separate_date_optimized(spanish_date);
    println!("Separated: {:?}", separated);
    assert_eq!(separated, vec!["20", "abril", "1994"]);

    let mut components = vec!["20".to_string(), "abril".to_string(), "1994".to_string()];
    for component in &mut components {
        let converted = convert_text_month_optimized(component).into_owned();
        *component = converted;
    }
    println!("After month conversion: {:?}", components);
    assert_eq!(components, vec!["20", "04", "1994"]);
}

#[test]
fn test_handle_year_only_date() {
    let result = handle_year_only_date("2020", Value(15), Value(6)).unwrap();
    assert_eq!(result, Some("2020-06-15".to_string()));

    let result = handle_year_only_date("2020", Skip, Value(6)).unwrap();
    assert_eq!(result, None);

    let result = handle_year_only_date("2020", Value(15), Skip).unwrap();
    assert_eq!(result, None);

    let result = handle_year_only_date("2020", Skip, Skip).unwrap();
    assert_eq!(result, None);

    let result = handle_year_only_date("2020", Value(15), Unspecified);
    assert!(result.is_err());
    assert!(result.unwrap_err().message().contains("Missing month"));

    let result = handle_year_only_date("2020", Unspecified, Value(6));
    assert!(result.is_err());
    assert!(result.unwrap_err().message().contains("Missing day"));

    let result = handle_year_only_date("01/02/2020", Value(15), Value(6)).unwrap();
    assert_eq!(result, None);

    let result = handle_year_only_date("abcd", Value(15), Value(6)).unwrap();
    assert_eq!(result, None);

    let result = handle_year_only_date("202", Value(15), Value(6)).unwrap();
    assert_eq!(result, None);

    let result = handle_year_only_date("20201", Value(15), Value(6)).unwrap();
    assert_eq!(result, None);

    let result = handle_year_only_date("0000", Value(1), Value(1)).unwrap();
    assert_eq!(result, Some("0000-01-01".to_string()));

    let result = handle_year_only_date("9999", Value(31), Value(12)).unwrap();
    assert_eq!(result, Some("9999-12-31".to_string()));
}

#[test]
fn test_process_date_pipeline_na_imputation() {
    let result = process_date_pipeline("1994", Value(1), Skip, "dmy", false, false, 2025).unwrap();
    assert_eq!(result, None);

    let result = process_date_pipeline("1994", Skip, Value(7), "dmy", false, false, 2025).unwrap();
    assert_eq!(result, None);

    let result = process_date_pipeline("1994", Skip, Skip, "dmy", false, false, 2025).unwrap();
    assert_eq!(result, None);

    let result = process_date_pipeline("04/1994", Skip, Value(7), "dmy", false, false, 2025).unwrap();
    assert_eq!(result, None);
}

#[test]
fn test_handle_numeric_dates() {
    let result = handle_numeric_dates("44927", true);
    assert!(result.is_some());
    assert!(result.unwrap().starts_with("202"));

    let result = handle_numeric_dates("18628", false);
    assert!(result.is_some());
    assert!(result.unwrap().starts_with("202"));

    let result = handle_numeric_dates("1", true);
    assert_eq!(result, Some("1899-12-31".to_string()));

    let result = handle_numeric_dates("1", false);
    assert_eq!(result, Some("1970-01-02".to_string()));

    let excel_zero = handle_numeric_dates("0", true);
    assert!(excel_zero.is_some());
    let unix_zero = handle_numeric_dates("0", false);
    assert!(unix_zero.is_some());
    assert_ne!(excel_zero.unwrap(), unix_zero.unwrap());

    assert_eq!(handle_numeric_dates("01/02/2020", true), None);
    assert_eq!(handle_numeric_dates("abc123", true), None);
    assert_eq!(handle_numeric_dates("", true), None);
    assert_eq!(handle_numeric_dates("123abc", true), None);
    assert_eq!(handle_numeric_dates("123 456", true), None);

    // far outside the window of serial numbers: not a serial date
    assert_eq!(handle_numeric_dates("999999999999999999999999999999999", true), None);

    // a sign is not part of a serial number
    assert_eq!(handle_numeric_dates("-100", true), None);
}

#[test]
fn test_parse_date_components() {
    let v = |t: &[&str]| t.iter().map(|s| s.to_string()).collect::<Vec<String>>();

    let result = parse_date_components(&v(&["15", "06", "2020"]), "dmy", Value(1)).unwrap();
    assert_eq!(result, (Some(15), Some(6), Some(2020)));

    let result = parse_date_components(&v(&["06", "15", "2020"]), "mdy", Value(1)).unwrap();
    assert_eq!(result, (Some(15), Some(6), Some(2020)));

    let result = parse_date_components(&v(&["2020", "06", "15"]), "dmy", Value(1)).unwrap();
    assert_eq!(result, (Some(15), Some(6), Some(2020)));

    let result = parse_date_components(&v(&["06", "2020"]), "dmy", Value(15)).unwrap();
    assert_eq!(result, (Some(15), Some(6), Some(2020)));

    let result = parse_date_components(&v(&["2020", "06"]), "dmy", Value(15)).unwrap();
    assert_eq!(result, (Some(15), Some(6), Some(2020)));

    let result = parse_date_components(&v(&["2020"]), "dmy", Value(15));
    assert!(result.is_err());
    assert!(result.unwrap_err().message().contains("Insufficient"));

    let result = parse_date_components(&v(&["06", "2020"]), "dmy", Unspecified);
    assert!(result.is_err());
    assert!(result.unwrap_err().message().contains("Missing day"));

    let result = parse_date_components(&v(&["06", "2020"]), "dmy", Skip);
    assert!(result.is_err());
    assert!(result.unwrap_err().message().contains("NA imputation requested"));

    let result = parse_date_components(&v(&["15", "06", "2020"]), "xyz", Value(1));
    assert!(result.is_err());
    assert!(result.unwrap_err().message().contains("format should be either"));

    let result = parse_date_components(&v(&["15", "06", "20201"]), "dmy", Value(1));
    assert!(result.is_err());
    assert!(result.unwrap_err().message().contains("unable to tidy"));

    let result = parse_date_components(&v(&["abc", "06", "2020"]), "dmy", Value(1));
    assert!(result.is_err());
    assert!(result.unwrap_err().message().contains("Invalid"));

    let result = parse_date_components(&v(&["06", "15"]), "dmy", Value(1));
    assert!(result.is_err());
    assert!(result.unwrap_err().message().contains("Unable to determine"));

    let result = parse_date_components(&v(&["06", "15,", "2020"]), "mdy", Value(1)).unwrap();
    assert_eq!(result, (Some(15), Some(6), Some(2020)));

    let result = parse_date_components(&v(&["0000", "01", "01"]), "dmy", Value(1)).unwrap();
    assert_eq!(result, (Some(1), Some(1), Some(0)));

    let result = parse_date_components(&v(&["31", "12", "9999"]), "dmy", Value(1)).unwrap();
    assert_eq!(result, (Some(31), Some(12), Some(9999)));
}

#[test]
fn test_process_single_date_with_error_handling() {
    let run = |date: &str, day: Imputation, format: &str, roman: bool| {
        process_single_date_with_error_handling(date, day, Value(1), format, false, roman)
    };

    assert_eq!(run("15/06/2020", Value(1), "dmy", false).unwrap(), Some("2020-06-15".to_string()));
    assert_eq!(run("06/15/2020", Value(1), "mdy", false).unwrap(), Some("2020-06-15".to_string()));

    let result = run("15 06 2020", Value(1), "xyz", false);
    assert!(result.is_err());
    assert!(result.unwrap_err().message().contains("format should be either"));

    let result = run("06 2020", Unspecified, "dmy", false);
    assert!(result.is_err());
    assert!(result.unwrap_err().message().contains("Missing day"));

    let result = run("15 13 2020", Value(1), "dmy", false);
    assert!(result.is_err());
    assert!(result.unwrap_err().message().contains("Month not in expected range"));

    let result = run("32 06 2020", Value(1), "dmy", false);
    assert!(result.is_err());
    assert!(result.unwrap_err().message().contains("Day not in expected range"));

    let result = run("15 06 202001", Value(1), "dmy", false);
    assert!(result.is_err());
    assert!(result.unwrap_err().message().contains("unable to tidy a date"));

    assert_eq!(run("", Value(1), "dmy", false).unwrap(), None);
    assert_eq!(run("NA", Value(1), "dmy", false).unwrap(), None);

    assert_eq!(run("06/2020", Value(25), "dmy", false).unwrap(), Some("2020-06-25".to_string()));
    assert_eq!(run("30/02/2021", Value(1), "dmy", false).unwrap(), Some("2021-02-28".to_string()));
    assert_eq!(run("29/02/2020", Value(1), "dmy", false).unwrap(), Some("2020-02-29".to_string()));
    assert_eq!(run("15/06/99", Value(1), "dmy", false).unwrap(), Some("1999-06-15".to_string()));
    assert_eq!(run("15/xii/2020", Value(1), "dmy", true).unwrap(), Some("2020-12-15".to_string()));
    assert_eq!(
        run("january 15 2020", Value(1), "dmy", false).unwrap(),
        Some("2020-01-15".to_string())
    );
}

#[test]
fn test_process_single_date_error_propagation() {
    let result =
        process_single_date_with_error_handling("15 06 2020", Value(1), Value(1), "invalid_format", false, false);
    assert!(result.is_err());

    let result = process_single_date_with_error_handling("15 15 2020", Value(1), Value(1), "dmy", false, false);
    assert!(result.is_err());

    let result = process_single_date_with_error_handling("40 06 2020", Value(1), Value(1), "dmy", false, false);
    assert!(result.is_err());
}

#[test]
fn test_process_single_date_recoverable_errors() {
    let result = process_single_date_with_error_handling("", Value(1), Value(1), "dmy", false, false).unwrap();
    assert_eq!(result, None);

    let result = process_single_date_with_error_handling("NA", Value(1), Value(1), "dmy", false, false).unwrap();
    assert_eq!(result, None);
}

#[test]
fn test_validate_year_length() {
    assert!(validate_year_length("2020").is_ok());
    assert!(validate_year_length("1999").is_ok());
    assert!(validate_year_length("0001").is_ok());
    assert!(validate_year_length("9999").is_ok());

    assert!(validate_year_length("20").is_ok());
    assert!(validate_year_length("1").is_ok());
    assert!(validate_year_length("").is_ok());

    assert!(validate_year_length("20201").is_err());
    assert!(validate_year_length("123456").is_err());

    let result = validate_year_length("20201");
    assert!(result.is_err());
    assert!(result.unwrap_err().message().contains("unable to tidy"));
}

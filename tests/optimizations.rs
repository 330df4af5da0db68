use datefixr::fastpath::fast_path_parse_date;
use datefixr::lexicon::convert_text_month_optimized;
use datefixr::normalize::{clean_date_string_combined, replace_all_optimized, rm_ordinal_suffixes_optimized};
use datefixr::split::separate_date_optimized;
use std::borrow::Cow;

#[test]
fn test_replace_all_optimized() {
    let result = replace_all_optimized("hello world", &[("world", "rust")]);
    assert_eq!(result, "hello rust");

    // no allocation when no replacement is needed
    let result = replace_all_optimized("hello world", &[("foo", "bar")]);
    assert_eq!(result, "hello world");
    if let Cow::Borrowed(_) = result {
    } else {
        panic!("Should not allocate when no replacement needed");
    }
}

#[test]
fn test_convert_text_month_optimized() {
    assert_eq!(convert_text_month_optimized("July 4th, 1776"), "07 4th, 1776");
    assert_eq!(convert_text_month_optimized("january 2020"), "01 2020");
    assert_eq!(convert_text_month_optimized("06 de enero del 2008"), "06 de 01 del 2008");
}

#[test]
fn test_separate_date_optimized() {
    assert_eq!(separate_date_optimized("06 de enero del 2008"), vec!["06", "enero", "2008"]);
    assert_eq!(separate_date_optimized("July 4th, 1776"), vec!["July", "4th,", "1776"]);
}

#[test]
fn test_rm_ordinal_suffixes_optimized() {
    assert_eq!(rm_ordinal_suffixes_optimized("1st January"), "1 January");
    assert_eq!(rm_ordinal_suffixes_optimized("July 4th, 1776"), "July 4, 1776");
    assert_eq!(rm_ordinal_suffixes_optimized("4th,"), "4,");
}

#[test]
fn test_fast_path_parse_date() {
    // ISO is always unambiguous
    assert_eq!(fast_path_parse_date("2020-12-25", "dmy"), Some((25, 12, 2020)));
    assert_eq!(fast_path_parse_date("2020-01-01", "mdy"), Some((1, 1, 2020)));

    assert_eq!(fast_path_parse_date("25/12/2020", "dmy"), Some((25, 12, 2020)));
    assert_eq!(fast_path_parse_date("12/25/2020", "mdy"), Some((25, 12, 2020)));

    // unambiguous without a format
    assert_eq!(fast_path_parse_date("25/01/2020", ""), Some((25, 1, 2020)));
    assert_eq!(fast_path_parse_date("01/25/2020", ""), Some((25, 1, 2020)));

    // two-digit years
    assert_eq!(fast_path_parse_date("25/12/99", "dmy"), Some((25, 12, 1999)));
    assert_eq!(fast_path_parse_date("12/25/23", "mdy"), Some((25, 12, 2023)));

    assert_eq!(fast_path_parse_date("invalid", "dmy"), None);

    // ambiguous without a format: left to the general path
    assert_eq!(fast_path_parse_date("01/02/2020", ""), None);
}

#[test]
fn test_clean_date_string_combined() {
    assert_eq!(clean_date_string_combined("25/12/2020"), "25/12/2020");
    assert_eq!(clean_date_string_combined("July 4th, 1776"), "July 4, 1776");
    assert_eq!(clean_date_string_combined("le 1er janvier"), "01 janvier");
    assert_eq!(clean_date_string_combined("15 марта 2020"), "15 март 2020");
    assert_eq!(clean_date_string_combined("le 4th марта"), "4 март");
}

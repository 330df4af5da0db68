use datefixr::messages::{
    date_should_be_character, day_impute_integer, day_impute_integer_range, day_not_in_range,
    format_should_be_dmy_or_mdy, init_translations, missing_day_no_imputation,
    missing_month_no_imputation, month_not_in_range, tr, translation, unable_to_tidy_date, Language,
};

#[test]
fn test_translation_init() {
    let language = init_translations("en");
    let result = tr(language, "test message");
    assert!(!result.is_empty());
}

#[test]
fn test_predefined_messages() {
    let l = Language::English;
    assert!(!missing_month_no_imputation(l).is_empty());
    assert!(!missing_day_no_imputation(l).is_empty());
    assert!(!day_impute_integer_range(l).is_empty());
    assert!(!day_impute_integer(l).is_empty());
    assert!(!month_not_in_range(l).is_empty());
    assert!(!day_not_in_range(l).is_empty());
    assert!(!format_should_be_dmy_or_mdy(l).is_empty());
    assert!(!unable_to_tidy_date(l).is_empty());
    assert!(!date_should_be_character(l).is_empty());
}

#[test]
fn test_spanish_translations() {
    let spanish_day = translation(Language::Spanish, "Day not in expected range\n");
    assert_eq!(spanish_day, Some("Día fuera del rango esperado\n"));

    let spanish_month = translation(Language::Spanish, "Month not in expected range\n");
    assert_eq!(spanish_month, Some("Mes fuera del rango esperado\n"));
}

#[test]
fn test_french_translations() {
    let french_day = translation(Language::French, "Day not in expected range\n");
    assert_eq!(french_day, Some("Jour hors de la plage attendue\n"));

    let french_month = translation(Language::French, "Month not in expected range\n");
    assert_eq!(french_month, Some("Mois hors de la plage attendue\n"));
}

#[test]
fn test_german_translations() {
    let german_day = translation(Language::German, "Day not in expected range\n");
    assert_eq!(german_day, Some("Tag nicht im erwarteten Bereich\n"));

    let german_month = translation(Language::German, "Month not in expected range\n");
    assert_eq!(german_month, Some("Monat nicht im erwarteten Bereich\n"));
}

#[test]
fn test_russian_translations() {
    let russian_day = translation(Language::Russian, "Day not in expected range\n");
    assert_eq!(russian_day, Some("день определен вне ожидаемого диапазона\n"));

    let russian_month = translation(Language::Russian, "Month not in expected range\n");
    assert_eq!(russian_month, Some("Месяц определен вне ожидаемого диапазона\n"));
}

#[test]
fn test_all_languages_have_core_messages() {
    let core_messages = [
        "Day not in expected range\n",
        "Month not in expected range\n",
        "date should be a character",
        "unable to tidy a date",
        "format should be either 'dmy' or 'mdy'",
    ];
    let languages = [
        Language::Spanish,
        Language::French,
        Language::Czech,
        Language::German,
        Language::Indonesian,
        Language::Portuguese,
        Language::Russian,
        Language::Slovak,
    ];
    for language in languages {
        for message in &core_messages {
            assert!(
                translation(language, message).is_some(),
                "Translation map missing message: {}",
                message
            );
        }
    }
}

#[test]
fn test_locale_detection() {
    let test_locales = [
        ("es_ES.UTF-8", "es", Language::Spanish),
        ("fr_FR.UTF-8", "fr", Language::French),
        ("de_DE.UTF-8", "de", Language::German),
        ("ru_RU.UTF-8", "ru", Language::Russian),
        ("cs_CZ.UTF-8", "cs", Language::Czech),
        ("sk_SK.UTF-8", "sk", Language::Slovak),
        ("id_ID.UTF-8", "id", Language::Indonesian),
        ("pt_PT.UTF-8", "pt", Language::Portuguese),
    ];
    for (locale, expected_prefix, language) in test_locales {
        assert!(
            locale.starts_with(expected_prefix),
            "Locale {} should start with {}",
            locale,
            expected_prefix
        );
        assert_eq!(init_translations(locale), language);
    }
}

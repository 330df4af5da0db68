//! The message catalog: the English text of each message, its translations
//! into eight languages, and the choice of language from a locale name.
use vstd::prelude::*;
use vstd::string::*;
use crate::error::{Component, DateError};
use crate::normalize::matches_at;
use crate::normalize::has_phrase;
use crate::text::{chars_of, same_chars};

verus! {

/// The languages the catalog holds; any other locale gets the English text.
#[derive(Clone, Copy, Debug, PartialEq, Eq, Structural)]
pub enum Language {
    English,
    Spanish,
    French,
    Czech,
    German,
    Indonesian,
    Portuguese,
    Russian,
    Slovak,
}

/// The Spanish text of an English message, if the catalog has one.
pub open spec fn spanish_text(key: Seq<char>) -> Option<Seq<char>> {
    if key == "Day not in expected range\n"@ {
        Some("Día fuera del rango esperado\n"@)
    } else if key == "Month not in expected range\n"@ {
        Some("Mes fuera del rango esperado\n"@)
    } else if key == "date should be a character"@ {
        Some("la fecha debe ser un carácter"@)
    } else if key == "unable to tidy a date"@ {
        Some("no se puede ordenar una fecha"@)
    } else if key == "format should be either 'dmy' or 'mdy'"@ {
        Some("el formato debe ser 'dmy' o 'mdy'"@)
    } else if key == "Missing month with no imputation value given \n"@ {
        Some("Mes faltante sin valor de imputación dado \n"@)
    } else if key == "Missing day with no imputation value given \n"@ {
        Some("Día faltante sin valor de imputación dado \n"@)
    } else if key == "day.impute should be an integer between 1 and 31\n"@ {
        Some("day.impute debe ser un entero entre 1 y 31\n"@)
    } else if key == "day.impute should be an integer\n"@ {
        Some("day.impute debe ser un entero\n"@)
    } else if key == "month.impute should be an integer between 1 and 12"@ {
        Some("month.impute debe ser un entero entre 1 y 12"@)
    } else if key == "month.impute should be an integer"@ {
        Some("month.impute debe ser un entero"@)
    } else if key == "Unable to resolve date for subject"@ {
        Some("No se puede resolver la fecha para el sujeto"@)
    } else if key == "(date:"@ {
        Some("(fecha:"@)
    } else if key == ")"@ {
        Some(")"@)
    } else if key == "NA imputed (date:"@ {
        Some("NA imputado (fecha:"@)
    } else if key == "NA imputed for subject"@ {
        Some("NA imputado para sujeto"@)
    } else {
        None
    }
}

fn spanish_lookup(key: &Vec<char>) -> (r: Option<&'static str>)
    ensures
        r matches Some(t) ==> spanish_text(key@) == Some(t@),
        r is None ==> spanish_text(key@) is None,
{
    if same_chars(key, "Day not in expected range\n") {
        Some("Día fuera del rango esperado\n")
    } else if same_chars(key, "Month not in expected range\n") {
        Some("Mes fuera del rango esperado\n")
    } else if same_chars(key, "date should be a character") {
        Some("la fecha debe ser un carácter")
    } else if same_chars(key, "unable to tidy a date") {
        Some("no se puede ordenar una fecha")
    } else if same_chars(key, "format should be either 'dmy' or 'mdy'") {
        Some("el formato debe ser 'dmy' o 'mdy'")
    } else if same_chars(key, "Missing month with no imputation value given \n") {
        Some("Mes faltante sin valor de imputación dado \n")
    } else if same_chars(key, "Missing day with no imputation value given \n") {
        Some("Día faltante sin valor de imputación dado \n")
    } else if same_chars(key, "day.impute should be an integer between 1 and 31\n") {
        Some("day.impute debe ser un entero entre 1 y 31\n")
    } else if same_chars(key, "day.impute should be an integer\n") {
        Some("day.impute debe ser un entero\n")
    } else if same_chars(key, "month.impute should be an integer between 1 and 12") {
        Some("month.impute debe ser un entero entre 1 y 12")
    } else if same_chars(key, "month.impute should be an integer") {
        Some("month.impute debe ser un entero")
    } else if same_chars(key, "Unable to resolve date for subject") {
        Some("No se puede resolver la fecha para el sujeto")
    } else if same_chars(key, "(date:") {
        Some("(fecha:")
    } else if same_chars(key, ")") {
        Some(")")
    } else if same_chars(key, "NA imputed (date:") {
        Some("NA imputado (fecha:")
    } else if same_chars(key, "NA imputed for subject") {
        Some("NA imputado para sujeto")
    } else {
        None
    }
}

/// The French text of an English message, if the catalog has one.
pub open spec fn french_text(key: Seq<char>) -> Option<Seq<char>> {
    if key == "Day not in expected range\n"@ {
        Some("Jour hors de la plage attendue\n"@)
    } else if key == "Month not in expected range\n"@ {
        Some("Mois hors de la plage attendue\n"@)
    } else if key == "date should be a character"@ {
        Some("la date doit être un caractère"@)
    } else if key == "unable to tidy a date"@ {
        Some("impossible de nettoyer une date"@)
    } else if key == "format should be either 'dmy' or 'mdy'"@ {
        Some("le format doit être 'dmy' ou 'mdy'"@)
    } else if key == "Missing month with no imputation value given \n"@ {
        Some("Mois manquant sans valeur d'imputation donnée \n"@)
    } else if key == "Missing day with no imputation value given \n"@ {
        Some("Jour manquant sans valeur d'imputation donnée \n"@)
    } else if key == "day.impute should be an integer between 1 and 31\n"@ {
        Some("day.impute doit être un entier entre 1 et 31\n"@)
    } else if key == "day.impute should be an integer\n"@ {
        Some("day.impute doit être un entier\n"@)
    } else if key == "month.impute should be an integer between 1 and 12"@ {
        Some("month.impute doit être un entier entre 1 et 12"@)
    } else if key == "month.impute should be an integer"@ {
        Some("month.impute doit être un entier"@)
    } else if key == "Unable to resolve date for subject"@ {
        Some("Impossible de résoudre la date pour le sujet"@)
    } else if key == "(date:"@ {
        Some("(date:"@)
    } else if key == ")"@ {
        Some(")"@)
    } else if key == "NA imputed (date:"@ {
        Some("NA imputé (date:"@)
    } else if key == "NA imputed for subject"@ {
        Some("NA imputé pour sujet"@)
    } else {
        None
    }
}

fn french_lookup(key: &Vec<char>) -> (r: Option<&'static str>)
    ensures
        r matches Some(t) ==> french_text(key@) == Some(t@),
        r is None ==> french_text(key@) is None,
{
    if same_chars(key, "Day not in expected range\n") {
        Some("Jour hors de la plage attendue\n")
    } else if same_chars(key, "Month not in expected range\n") {
        Some("Mois hors de la plage attendue\n")
    } else if same_chars(key, "date should be a character") {
        Some("la date doit être un caractère")
    } else if same_chars(key, "unable to tidy a date") {
        Some("impossible de nettoyer une date")
    } else if same_chars(key, "format should be either 'dmy' or 'mdy'") {
        Some("le format doit être 'dmy' ou 'mdy'")
    } else if same_chars(key, "Missing month with no imputation value given \n") {
        Some("Mois manquant sans valeur d'imputation donnée \n")
    } else if same_chars(key, "Missing day with no imputation value given \n") {
        Some("Jour manquant sans valeur d'imputation donnée \n")
    } else if same_chars(key, "day.impute should be an integer between 1 and 31\n") {
        Some("day.impute doit être un entier entre 1 et 31\n")
    } else if same_chars(key, "day.impute should be an integer\n") {
        Some("day.impute doit être un entier\n")
    } else if same_chars(key, "month.impute should be an integer between 1 and 12") {
        Some("month.impute doit être un entier entre 1 et 12")
    } else if same_chars(key, "month.impute should be an integer") {
        Some("month.impute doit être un entier")
    } else if same_chars(key, "Unable to resolve date for subject") {
        Some("Impossible de résoudre la date pour le sujet")
    } else if same_chars(key, "(date:") {
        Some("(date:")
    } else if same_chars(key, ")") {
        Some(")")
    } else if same_chars(key, "NA imputed (date:") {
        Some("NA imputé (date:")
    } else if same_chars(key, "NA imputed for subject") {
        Some("NA imputé pour sujet")
    } else {
        None
    }
}

/// The Czech text of an English message, if the catalog has one.
pub open spec fn czech_text(key: Seq<char>) -> Option<Seq<char>> {
    if key == "Day not in expected range\n"@ {
        Some("Den není v očekávaném rozsahu\n"@)
    } else if key == "Month not in expected range\n"@ {
        Some("Měsíc není v očekávaném rozsahu\n"@)
    } else if key == "date should be a character"@ {
        Some("datum by měl být text"@)
    } else if key == "unable to tidy a date"@ {
        Some("nepodařilo se normalizovat datum"@)
    } else if key == "format should be either 'dmy' or 'mdy'"@ {
        Some("Formát by měl být buď 'dmy' nebo 'mdy'"@)
    } else if key == "Missing month with no imputation value given \n"@ {
        Some("Chybí měsíc bez dané hodnoty imputace \n"@)
    } else if key == "Missing day with no imputation value given \n"@ {
        Some("Chybí den bez dané hodnoty imputace \n"@)
    } else if key == "day.impute should be an integer between 1 and 31\n"@ {
        Some("day.impute by mělo být celé číslo mezi 1 a 31\n"@)
    } else if key == "day.impute should be an integer\n"@ {
        Some("day.impute by mělo být celé číslo\n"@)
    } else if key == "month.impute should be an integer between 1 and 12"@ {
        Some("month.impute by mělo být celé číslo mezi 1 a 12"@)
    } else if key == "month.impute should be an integer"@ {
        Some("month.impute by mělo být celé číslo"@)
    } else if key == "Unable to resolve date for subject"@ {
        Some("Pro subjekt se nepodařilo rozpoznat datum"@)
    } else if key == "(date:"@ {
        Some("(datum:"@)
    } else if key == ")"@ {
        Some(")"@)
    } else if key == "NA imputed (date:"@ {
        Some("Imputované NA (datum:"@)
    } else if key == "NA imputed for subject"@ {
        Some("Imputované NA pro subjekt"@)
    } else {
        None
    }
}

fn czech_lookup(key: &Vec<char>) -> (r: Option<&'static str>)
    ensures
        r matches Some(t) ==> czech_text(key@) == Some(t@),
        r is None ==> czech_text(key@) is None,
{
    if same_chars(key, "Day not in expected range\n") {
        Some("Den není v očekávaném rozsahu\n")
    } else if same_chars(key, "Month not in expected range\n") {
        Some("Měsíc není v očekávaném rozsahu\n")
    } else if same_chars(key, "date should be a character") {
        Some("datum by měl být text")
    } else if same_chars(key, "unable to tidy a date") {
        Some("nepodařilo se normalizovat datum")
    } else if same_chars(key, "format should be either 'dmy' or 'mdy'") {
        Some("Formát by měl být buď 'dmy' nebo 'mdy'")
    } else if same_chars(key, "Missing month with no imputation value given \n") {
        Some("Chybí měsíc bez dané hodnoty imputace \n")
    } else if same_chars(key, "Missing day with no imputation value given \n") {
        Some("Chybí den bez dané hodnoty imputace \n")
    } else if same_chars(key, "day.impute should be an integer between 1 and 31\n") {
        Some("day.impute by mělo být celé číslo mezi 1 a 31\n")
    } else if same_chars(key, "day.impute should be an integer\n") {
        Some("day.impute by mělo být celé číslo\n")
    } else if same_chars(key, "month.impute should be an integer between 1 and 12") {
        Some("month.impute by mělo být celé číslo mezi 1 a 12")
    } else if same_chars(key, "month.impute should be an integer") {
        Some("month.impute by mělo být celé číslo")
    } else if same_chars(key, "Unable to resolve date for subject") {
        Some("Pro subjekt se nepodařilo rozpoznat datum")
    } else if same_chars(key, "(date:") {
        Some("(datum:")
    } else if same_chars(key, ")") {
        Some(")")
    } else if same_chars(key, "NA imputed (date:") {
        Some("Imputované NA (datum:")
    } else if same_chars(key, "NA imputed for subject") {
        Some("Imputované NA pro subjekt")
    } else {
        None
    }
}

/// The German text of an English message, if the catalog has one.
pub open spec fn german_text(key: Seq<char>) -> Option<Seq<char>> {
    if key == "Day not in expected range\n"@ {
        Some("Tag nicht im erwarteten Bereich\n"@)
    } else if key == "Month not in expected range\n"@ {
        Some("Monat nicht im erwarteten Bereich\n"@)
    } else if key == "date should be a character"@ {
        Some("date muss vom Typ character sein"@)
    } else if key == "unable to tidy a date"@ {
        Some("Datum kann nicht bereinigt werden"@)
    } else if key == "format should be either 'dmy' or 'mdy'"@ {
        Some("format sollte entweder 'dmy' oder 'mdy' sein"@)
    } else if key == "Missing month with no imputation value given \n"@ {
        Some("Fehlender Monat ohne Imputationswert \n"@)
    } else if key == "Missing day with no imputation value given \n"@ {
        Some("Fehlender Tag ohne Imputationswert \n"@)
    } else if key == "day.impute should be an integer between 1 and 31\n"@ {
        Some("day.impute sollte eine Ganzzahl zwischen 1 und 31 sein\n"@)
    } else if key == "day.impute should be an integer\n"@ {
        Some("day.impute sollte eine Ganzzahl sein\n"@)
    } else if key == "month.impute should be an integer between 1 and 12"@ {
        Some("month.impute sollte eine Ganzzahl zwischen 1 und 12 sein"@)
    } else if key == "month.impute should be an integer"@ {
        Some("month.impute sollte eine Ganzzahl sein"@)
    } else if key == "Unable to resolve date for subject"@ {
        Some("Datum kann nicht aufgelöst werden für"@)
    } else if key == "(date:"@ {
        Some("(Datum:"@)
    } else if key == ")"@ {
        Some(")"@)
    } else if key == "NA imputed (date:"@ {
        Some("NA imputiert (Datum:"@)
    } else if key == "NA imputed for subject"@ {
        Some("NA imputiert für"@)
    } else {
        None
    }
}

fn german_lookup(key: &Vec<char>) -> (r: Option<&'static str>)
    ensures
        r matches Some(t) ==> german_text(key@) == Some(t@),
        r is None ==> german_text(key@) is None,
{
    if same_chars(key, "Day not in expected range\n") {
        Some("Tag nicht im erwarteten Bereich\n")
    } else if same_chars(key, "Month not in expected range\n") {
        Some("Monat nicht im erwarteten Bereich\n")
    } else if same_chars(key, "date should be a character") {
        Some("date muss vom Typ character sein")
    } else if same_chars(key, "unable to tidy a date") {
        Some("Datum kann nicht bereinigt werden")
    } else if same_chars(key, "format should be either 'dmy' or 'mdy'") {
        Some("format sollte entweder 'dmy' oder 'mdy' sein")
    } else if same_chars(key, "Missing month with no imputation value given \n") {
        Some("Fehlender Monat ohne Imputationswert \n")
    } else if same_chars(key, "Missing day with no imputation value given \n") {
        Some("Fehlender Tag ohne Imputationswert \n")
    } else if same_chars(key, "day.impute should be an integer between 1 and 31\n") {
        Some("day.impute sollte eine Ganzzahl zwischen 1 und 31 sein\n")
    } else if same_chars(key, "day.impute should be an integer\n") {
        Some("day.impute sollte eine Ganzzahl sein\n")
    } else if same_chars(key, "month.impute should be an integer between 1 and 12") {
        Some("month.impute sollte eine Ganzzahl zwischen 1 und 12 sein")
    } else if same_chars(key, "month.impute should be an integer") {
        Some("month.impute sollte eine Ganzzahl sein")
    } else if same_chars(key, "Unable to resolve date for subject") {
        Some("Datum kann nicht aufgelöst werden für")
    } else if same_chars(key, "(date:") {
        Some("(Datum:")
    } else if same_chars(key, ")") {
        Some(")")
    } else if same_chars(key, "NA imputed (date:") {
        Some("NA imputiert (Datum:")
    } else if same_chars(key, "NA imputed for subject") {
        Some("NA imputiert für")
    } else {
        None
    }
}

/// The Indonesian text of an English message, if the catalog has one.
pub open spec fn indonesian_text(key: Seq<char>) -> Option<Seq<char>> {
    if key == "Day not in expected range\n"@ {
        Some("Hari bukan dalam jangka yang di ekspektasi\n"@)
    } else if key == "Month not in expected range\n"@ {
        Some("Bulan bukan dalam jangka yang di ekspektasi\n"@)
    } else if key == "date should be a character"@ {
        Some("tanggal harus berupa karakter"@)
    } else if key == "unable to tidy a date"@ {
        Some("tanggal tidak dapat dirapihkan"@)
    } else if key == "format should be either 'dmy' or 'mdy'"@ {
        Some("format harus 'dmy' atau 'mdy'"@)
    } else if key == "Missing month with no imputation value given \n"@ {
        Some("Bulan hilang tanpa nilai imputasi \n"@)
    } else if key == "Missing day with no imputation value given \n"@ {
        Some("Hari hilang tanpa nilai imputasi \n"@)
    } else if key == "day.impute should be an integer between 1 and 31\n"@ {
        Some("day.impute harus berupa bilangan bulat antara 1 dan 31\n"@)
    } else if key == "day.impute should be an integer\n"@ {
        Some("day.impute harus berupa bilangan bulat\n"@)
    } else if key == "month.impute should be an integer between 1 and 12"@ {
        Some("month.impute harus berupa bilangan bulat antara 1 dan 12"@)
    } else if key == "month.impute should be an integer"@ {
        Some("month.impute harus berupa bilangan bulat"@)
    } else if key == "Unable to resolve date for subject"@ {
        Some("Tidak dapat menuntaskan tanggal untuk subjek"@)
    } else if key == "(date:"@ {
        Some("(tanggal:"@)
    } else if key == ")"@ {
        Some(")"@)
    } else if key == "NA imputed (date:"@ {
        Some("NA diperhitungkan (tanggal:"@)
    } else if key == "NA imputed for subject"@ {
        Some("NA diperhitungkan untuk subjek"@)
    } else {
        None
    }
}

fn indonesian_lookup(key: &Vec<char>) -> (r: Option<&'static str>)
    ensures
        r matches Some(t) ==> indonesian_text(key@) == Some(t@),
        r is None ==> indonesian_text(key@) is None,
{
    if same_chars(key, "Day not in expected range\n") {
        Some("Hari bukan dalam jangka yang di ekspektasi\n")
    } else if same_chars(key, "Month not in expected range\n") {
        Some("Bulan bukan dalam jangka yang di ekspektasi\n")
    } else if same_chars(key, "date should be a character") {
        Some("tanggal harus berupa karakter")
    } else if same_chars(key, "unable to tidy a date") {
        Some("tanggal tidak dapat dirapihkan")
    } else if same_chars(key, "format should be either 'dmy' or 'mdy'") {
        Some("format harus 'dmy' atau 'mdy'")
    } else if same_chars(key, "Missing month with no imputation value given \n") {
        Some("Bulan hilang tanpa nilai imputasi \n")
    } else if same_chars(key, "Missing day with no imputation value given \n") {
        Some("Hari hilang tanpa nilai imputasi \n")
    } else if same_chars(key, "day.impute should be an integer between 1 and 31\n") {
        Some("day.impute harus berupa bilangan bulat antara 1 dan 31\n")
    } else if same_chars(key, "day.impute should be an integer\n") {
        Some("day.impute harus berupa bilangan bulat\n")
    } else if same_chars(key, "month.impute should be an integer between 1 and 12") {
        Some("month.impute harus berupa bilangan bulat antara 1 dan 12")
    } else if same_chars(key, "month.impute should be an integer") {
        Some("month.impute harus berupa bilangan bulat")
    } else if same_chars(key, "Unable to resolve date for subject") {
        Some("Tidak dapat menuntaskan tanggal untuk subjek")
    } else if same_chars(key, "(date:") {
        Some("(tanggal:")
    } else if same_chars(key, ")") {
        Some(")")
    } else if same_chars(key, "NA imputed (date:") {
        Some("NA diperhitungkan (tanggal:")
    } else if same_chars(key, "NA imputed for subject") {
        Some("NA diperhitungkan untuk subjek")
    } else {
        None
    }
}

/// The Portuguese text of an English message, if the catalog has one.
pub open spec fn portuguese_text(key: Seq<char>) -> Option<Seq<char>> {
    if key == "Day not in expected range\n"@ {
        Some("Dia fora do intervalo esperado\n"@)
    } else if key == "Month not in expected range\n"@ {
        Some("Mês fora do intervalo esperado\n"@)
    } else if key == "date should be a character"@ {
        Some("data deve ser um caractere"@)
    } else if key == "unable to tidy a date"@ {
        Some("não foi possível organizar a data"@)
    } else if key == "format should be either 'dmy' or 'mdy'"@ {
        Some("formato deve ser 'dmy' ou 'mdy'"@)
    } else if key == "Missing month with no imputation value given \n"@ {
        Some("Mês ausente sem valor de imputação \n"@)
    } else if key == "Missing day with no imputation value given \n"@ {
        Some("Dia ausente sem valor de imputação \n"@)
    } else if key == "day.impute should be an integer between 1 and 31\n"@ {
        Some("day.impute deve ser um inteiro entre 1 e 31\n"@)
    } else if key == "day.impute should be an integer\n"@ {
        Some("day.impute deve ser um inteiro\n"@)
    } else if key == "month.impute should be an integer between 1 and 12"@ {
        Some("month.impute deve ser um inteiro entre 1 e 12"@)
    } else if key == "month.impute should be an integer"@ {
        Some("month.impute deve ser um inteiro"@)
    } else if key == "Unable to resolve date for subject"@ {
        Some("Não foi possível resolver a data para o sujeito"@)
    } else if key == "(date:"@ {
        Some("(data:"@)
    } else if key == ")"@ {
        Some(")"@)
    } else if key == "NA imputed (date:"@ {
        Some("NA imputado (data:"@)
    } else if key == "NA imputed for subject"@ {
        Some("NA imputado para sujeito"@)
    } else {
        None
    }
}

fn portuguese_lookup(key: &Vec<char>) -> (r: Option<&'static str>)
    ensures
        r matches Some(t) ==> portuguese_text(key@) == Some(t@),
        r is None ==> portuguese_text(key@) is None,
{
    if same_chars(key, "Day not in expected range\n") {
        Some("Dia fora do intervalo esperado\n")
    } else if same_chars(key, "Month not in expected range\n") {
        Some("Mês fora do intervalo esperado\n")
    } else if same_chars(key, "date should be a character") {
        Some("data deve ser um caractere")
    } else if same_chars(key, "unable to tidy a date") {
        Some("não foi possível organizar a data")
    } else if same_chars(key, "format should be either 'dmy' or 'mdy'") {
        Some("formato deve ser 'dmy' ou 'mdy'")
    } else if same_chars(key, "Missing month with no imputation value given \n") {
        Some("Mês ausente sem valor de imputação \n")
    } else if same_chars(key, "Missing day with no imputation value given \n") {
        Some("Dia ausente sem valor de imputação \n")
    } else if same_chars(key, "day.impute should be an integer between 1 and 31\n") {
        Some("day.impute deve ser um inteiro entre 1 e 31\n")
    } else if same_chars(key, "day.impute should be an integer\n") {
        Some("day.impute deve ser um inteiro\n")
    } else if same_chars(key, "month.impute should be an integer between 1 and 12") {
        Some("month.impute deve ser um inteiro entre 1 e 12")
    } else if same_chars(key, "month.impute should be an integer") {
        Some("month.impute deve ser um inteiro")
    } else if same_chars(key, "Unable to resolve date for subject") {
        Some("Não foi possível resolver a data para o sujeito")
    } else if same_chars(key, "(date:") {
        Some("(data:")
    } else if same_chars(key, ")") {
        Some(")")
    } else if same_chars(key, "NA imputed (date:") {
        Some("NA imputado (data:")
    } else if same_chars(key, "NA imputed for subject") {
        Some("NA imputado para sujeito")
    } else {
        None
    }
}

/// The Russian text of an English message, if the catalog has one.
pub open spec fn russian_text(key: Seq<char>) -> Option<Seq<char>> {
    if key == "Day not in expected range\n"@ {
        Some("день определен вне ожидаемого диапазона\n"@)
    } else if key == "Month not in expected range\n"@ {
        Some("Месяц определен вне ожидаемого диапазона\n"@)
    } else if key == "date should be a character"@ {
        Some("Переменная `date` должна быть строкой"@)
    } else if key == "unable to tidy a date"@ {
        Some("Не удалось почистить дату"@)
    } else if key == "format should be either 'dmy' or 'mdy'"@ {
        Some("переменная `format` должна быть либо 'dmy' (т.е., день-месяц-год), либо 'mdy' (т.е., месяц-день-год)"@)
    } else if key == "Missing month with no imputation value given \n"@ {
        Some("Отсутствует месяц без значения для импутации \n"@)
    } else if key == "Missing day with no imputation value given \n"@ {
        Some("Отсутствует день без значения для импутации \n"@)
    } else if key == "day.impute should be an integer between 1 and 31\n"@ {
        Some("`day.impute` должен быть целым числом между 1 и 31\n"@)
    } else if key == "day.impute should be an integer\n"@ {
        Some("`day.impute` должен быть целым числом\n"@)
    } else if key == "month.impute should be an integer between 1 and 12"@ {
        Some("`month.impute` должен быть целым числом (класса 'integer') от 1 до 12"@)
    } else if key == "month.impute should be an integer"@ {
        Some("`month.impute` должен быть целым числом (класса 'integer')"@)
    } else if key == "Unable to resolve date for subject"@ {
        Some("Не удалось определить дату для предмета"@)
    } else if key == "(date:"@ {
        Some("(дата:"@)
    } else if key == ")"@ {
        Some(")"@)
    } else if key == "NA imputed (date:"@ {
        Some("Н/Д (т.е. `NA`) присвоено (дата:"@)
    } else if key == "NA imputed for subject"@ {
        Some("Н/Д (т.е. `NA`) присвоено для предмета"@)
    } else {
        None
    }
}

fn russian_lookup(key: &Vec<char>) -> (r: Option<&'static str>)
    ensures
        r matches Some(t) ==> russian_text(key@) == Some(t@),
        r is None ==> russian_text(key@) is None,
{
    if same_chars(key, "Day not in expected range\n") {
        Some("день определен вне ожидаемого диапазона\n")
    } else if same_chars(key, "Month not in expected range\n") {
        Some("Месяц определен вне ожидаемого диапазона\n")
    } else if same_chars(key, "date should be a character") {
        Some("Переменная `date` должна быть строкой")
    } else if same_chars(key, "unable to tidy a date") {
        Some("Не удалось почистить дату")
    } else if same_chars(key, "format should be either 'dmy' or 'mdy'") {
        Some("переменная `format` должна быть либо 'dmy' (т.е., день-месяц-год), либо 'mdy' (т.е., месяц-день-год)")
    } else if same_chars(key, "Missing month with no imputation value given \n") {
        Some("Отсутствует месяц без значения для импутации \n")
    } else if same_chars(key, "Missing day with no imputation value given \n") {
        Some("Отсутствует день без значения для импутации \n")
    } else if same_chars(key, "day.impute should be an integer between 1 and 31\n") {
        Some("`day.impute` должен быть целым числом между 1 и 31\n")
    } else if same_chars(key, "day.impute should be an integer\n") {
        Some("`day.impute` должен быть целым числом\n")
    } else if same_chars(key, "month.impute should be an integer between 1 and 12") {
        Some("`month.impute` должен быть целым числом (класса 'integer') от 1 до 12")
    } else if same_chars(key, "month.impute should be an integer") {
        Some("`month.impute` должен быть целым числом (класса 'integer')")
    } else if same_chars(key, "Unable to resolve date for subject") {
        Some("Не удалось определить дату для предмета")
    } else if same_chars(key, "(date:") {
        Some("(дата:")
    } else if same_chars(key, ")") {
        Some(")")
    } else if same_chars(key, "NA imputed (date:") {
        Some("Н/Д (т.е. `NA`) присвоено (дата:")
    } else if same_chars(key, "NA imputed for subject") {
        Some("Н/Д (т.е. `NA`) присвоено для предмета")
    } else {
        None
    }
}

/// The Slovak text of an English message, if the catalog has one.
pub open spec fn slovak_text(key: Seq<char>) -> Option<Seq<char>> {
    if key == "Day not in expected range\n"@ {
        Some("Deň nie je v očakávanom rozsahu\n"@)
    } else if key == "Month not in expected range\n"@ {
        Some("Mesiac nie je v očakávanom rozsahu\n"@)
    } else if key == "date should be a character"@ {
        Some("dátum by malo byť text"@)
    } else if key == "unable to tidy a date"@ {
        Some("nepodarilo sa normalizovať dátum"@)
    } else if key == "format should be either 'dmy' or 'mdy'"@ {
        Some("Formát by mal byť 'dmy' alebo 'mdy'."@)
    } else if key == "Missing month with no imputation value given \n"@ {
        Some("Chýbajúci mesiac bez danej hodnoty imputácie \n"@)
    } else if key == "Missing day with no imputation value given \n"@ {
        Some("Chýbajúci deň bez danej hodnoty imputácie \n"@)
    } else if key == "day.impute should be an integer between 1 and 31\n"@ {
        Some("day.impute by malo byť celé číslo medzi 1 a 31\n"@)
    } else if key == "day.impute should be an integer\n"@ {
        Some("day.impute by malo byť celé číslo\n"@)
    } else if key == "month.impute should be an integer between 1 and 12"@ {
        Some("month.impute by malo byť celé číslo od 1 do 12"@)
    } else if key == "month.impute should be an integer"@ {
        Some("month.impute by malo byť celé číslo"@)
    } else if key == "Unable to resolve date for subject"@ {
        Some("Dátum nemohol byť rozpoznaný pre daný subjekt"@)
    } else if key == "(date:"@ {
        Some("(dátum:"@)
    } else if key == ")"@ {
        Some(")"@)
    } else if key == "NA imputed (date:"@ {
        Some("Imputované NA (dátum:"@)
    } else if key == "NA imputed for subject"@ {
        Some("Imputované NA pre subjekt"@)
    } else {
        None
    }
}

fn slovak_lookup(key: &Vec<char>) -> (r: Option<&'static str>)
    ensures
        r matches Some(t) ==> slovak_text(key@) == Some(t@),
        r is None ==> slovak_text(key@) is None,
{
    if same_chars(key, "Day not in expected range\n") {
        Some("Deň nie je v očakávanom rozsahu\n")
    } else if same_chars(key, "Month not in expected range\n") {
        Some("Mesiac nie je v očakávanom rozsahu\n")
    } else if same_chars(key, "date should be a character") {
        Some("dátum by malo byť text")
    } else if same_chars(key, "unable to tidy a date") {
        Some("nepodarilo sa normalizovať dátum")
    } else if same_chars(key, "format should be either 'dmy' or 'mdy'") {
        Some("Formát by mal byť 'dmy' alebo 'mdy'.")
    } else if same_chars(key, "Missing month with no imputation value given \n") {
        Some("Chýbajúci mesiac bez danej hodnoty imputácie \n")
    } else if same_chars(key, "Missing day with no imputation value given \n") {
        Some("Chýbajúci deň bez danej hodnoty imputácie \n")
    } else if same_chars(key, "day.impute should be an integer between 1 and 31\n") {
        Some("day.impute by malo byť celé číslo medzi 1 a 31\n")
    } else if same_chars(key, "day.impute should be an integer\n") {
        Some("day.impute by malo byť celé číslo\n")
    } else if same_chars(key, "month.impute should be an integer between 1 and 12") {
        Some("month.impute by malo byť celé číslo od 1 do 12")
    } else if same_chars(key, "month.impute should be an integer") {
        Some("month.impute by malo byť celé číslo")
    } else if same_chars(key, "Unable to resolve date for subject") {
        Some("Dátum nemohol byť rozpoznaný pre daný subjekt")
    } else if same_chars(key, "(date:") {
        Some("(dátum:")
    } else if same_chars(key, ")") {
        Some(")")
    } else if same_chars(key, "NA imputed (date:") {
        Some("Imputované NA (dátum:")
    } else if same_chars(key, "NA imputed for subject") {
        Some("Imputované NA pre subjekt")
    } else {
        None
    }
}

/// The translation of an English message into `language`, if the catalog
/// has one.
pub open spec fn catalog(language: Language, key: Seq<char>) -> Option<Seq<char>> {
    match language {
        Language::English => None,
        Language::Spanish => spanish_text(key),
        Language::French => french_text(key),
        Language::Czech => czech_text(key),
        Language::German => german_text(key),
        Language::Indonesian => indonesian_text(key),
        Language::Portuguese => portuguese_text(key),
        Language::Russian => russian_text(key),
        Language::Slovak => slovak_text(key),
    }
}

/// Looks up the translation of an English message into `language`.
pub fn translation(language: Language, message: &str) -> (r: Option<&'static str>)
    ensures
        r matches Some(t) ==> catalog(language, message@) == Some(t@),
        r is None ==> catalog(language, message@) is None,
{
    let key = chars_of(message);
    match language {
        Language::English => None,
        Language::Spanish => spanish_lookup(&key),
        Language::French => french_lookup(&key),
        Language::Czech => czech_lookup(&key),
        Language::German => german_lookup(&key),
        Language::Indonesian => indonesian_lookup(&key),
        Language::Portuguese => portuguese_lookup(&key),
        Language::Russian => russian_lookup(&key),
        Language::Slovak => slovak_lookup(&key),
    }
}

/// Does the locale name start with `code` or mention `name`?
pub open spec fn names_language(locale: Seq<char>, code: Seq<char>, name: Seq<char>) -> bool {
    (code.len() <= locale.len() && locale.take(code.len() as int) == code) || has_phrase(locale, name)
}

/// The language of a locale name ("es_ES.UTF-8", "french", ...), English
/// when it names none of the catalog's languages.
pub open spec fn language_of(locale: Seq<char>) -> Language {
    if names_language(locale, "es"@, "spanish"@) {
        Language::Spanish
    } else if names_language(locale, "fr"@, "french"@) {
        Language::French
    } else if names_language(locale, "cs"@, "czech"@) {
        Language::Czech
    } else if names_language(locale, "de"@, "german"@) {
        Language::German
    } else if names_language(locale, "id"@, "indonesian"@) {
        Language::Indonesian
    } else if names_language(locale, "pt"@, "portuguese"@) {
        Language::Portuguese
    } else if names_language(locale, "ru"@, "russian"@) {
        Language::Russian
    } else if names_language(locale, "sk"@, "slovak"@) {
        Language::Slovak
    } else {
        Language::English
    }
}

fn names(locale: &Vec<char>, code: &str, name: &str) -> (r: bool)
    ensures
        r == names_language(locale@, code@, name@),
{
    let c = chars_of(code);
    let starts = matches_at(locale, 0, &c);
    assert(starts == (c@.len() <= locale@.len() && locale@.take(c@.len() as int) == c@)) by {
        if c@.len() <= locale@.len() {
            assert(locale@.subrange(0, c@.len() as int) =~= locale@.take(c@.len() as int));
        }
    };
    starts || crate::split::contains_phrase(locale, &chars_of(name))
}

/// Chooses the message language from a locale name, once, for the callers
/// to pass along.
pub fn init_translations(locale: &str) -> (r: Language)
    ensures
        r == language_of(locale@),
{
    let l = chars_of(locale);
    if names(&l, "es", "spanish") {
        Language::Spanish
    } else if names(&l, "fr", "french") {
        Language::French
    } else if names(&l, "cs", "czech") {
        Language::Czech
    } else if names(&l, "de", "german") {
        Language::German
    } else if names(&l, "id", "indonesian") {
        Language::Indonesian
    } else if names(&l, "pt", "portuguese") {
        Language::Portuguese
    } else if names(&l, "ru", "russian") {
        Language::Russian
    } else if names(&l, "sk", "slovak") {
        Language::Slovak
    } else {
        Language::English
    }
}

/// A message in `language`: its translation, or the English text itself.
pub open spec fn translated(language: Language, message: Seq<char>) -> Seq<char> {
    match catalog(language, message) {
        Some(t) => t,
        None => message,
    }
}

/// Translates an English message into `language`, falling back to the
/// English text.
pub fn tr(language: Language, message: &str) -> (r: String)
    ensures
        r@ == translated(language, message@),
{
    match translation(language, message) {
        Some(t) => String::from_str(t),
        None => String::from_str(message),
    }
}

/// "Missing month with no imputation value given" in `language`.
pub fn missing_month_no_imputation(language: Language) -> (r: String)
    ensures
        r@ == translated(language, "Missing month with no imputation value given \n"@),
{
    tr(language, "Missing month with no imputation value given \n")
}

/// "Missing day with no imputation value given" in `language`.
pub fn missing_day_no_imputation(language: Language) -> (r: String)
    ensures
        r@ == translated(language, "Missing day with no imputation value given \n"@),
{
    tr(language, "Missing day with no imputation value given \n")
}

/// "day.impute should be an integer between 1 and 31" in `language`.
pub fn day_impute_integer_range(language: Language) -> (r: String)
    ensures
        r@ == translated(language, "day.impute should be an integer between 1 and 31\n"@),
{
    tr(language, "day.impute should be an integer between 1 and 31\n")
}

/// "day.impute should be an integer" in `language`.
pub fn day_impute_integer(language: Language) -> (r: String)
    ensures
        r@ == translated(language, "day.impute should be an integer\n"@),
{
    tr(language, "day.impute should be an integer\n")
}

/// "Month not in expected range" in `language`.
pub fn month_not_in_range(language: Language) -> (r: String)
    ensures
        r@ == translated(language, "Month not in expected range\n"@),
{
    tr(language, "Month not in expected range\n")
}

/// "Day not in expected range" in `language`.
pub fn day_not_in_range(language: Language) -> (r: String)
    ensures
        r@ == translated(language, "Day not in expected range\n"@),
{
    tr(language, "Day not in expected range\n")
}

/// "format should be either 'dmy' or 'mdy'" in `language`.
pub fn format_should_be_dmy_or_mdy(language: Language) -> (r: String)
    ensures
        r@ == translated(language, "format should be either 'dmy' or 'mdy'"@),
{
    tr(language, "format should be either 'dmy' or 'mdy'")
}

/// "unable to tidy a date" in `language`.
pub fn unable_to_tidy_date(language: Language) -> (r: String)
    ensures
        r@ == translated(language, "unable to tidy a date"@),
{
    tr(language, "unable to tidy a date")
}

/// "date should be a character" in `language`.
pub fn date_should_be_character(language: Language) -> (r: String)
    ensures
        r@ == translated(language, "date should be a character"@),
{
    tr(language, "date should be a character")
}

/// "NA imputed (date:" in `language`.
pub fn na_imputed_date(language: Language) -> (r: String)
    ensures
        r@ == translated(language, "NA imputed (date:"@),
{
    tr(language, "NA imputed (date:")
}

/// "NA imputed for subject" in `language`.
pub fn na_imputed_for_subject(language: Language) -> (r: String)
    ensures
        r@ == translated(language, "NA imputed for subject"@),
{
    tr(language, "NA imputed for subject")
}

/// "(date:" in `language`.
pub fn date_open_paren(language: Language) -> (r: String)
    ensures
        r@ == translated(language, "(date:"@),
{
    tr(language, "(date:")
}

/// ")" in `language`.
pub fn close_paren(language: Language) -> (r: String)
    ensures
        r@ == translated(language, ")"@),
{
    tr(language, ")")
}

/// The English text of a failure, which is also its catalog key.
pub open spec fn error_text(e: DateError) -> Seq<char> {
    match e {
        DateError::InvalidFormat => "format should be either 'dmy' or 'mdy'"@,
        DateError::MonthOutOfRange => "Month not in expected range\n"@,
        DateError::DayOutOfRange => "Day not in expected range\n"@,
        DateError::MissingDay => "Missing day with no imputation value given \n"@,
        DateError::MissingMonth => "Missing month with no imputation value given \n"@,
        DateError::NotCharacter => "date should be a character"@,
        DateError::Untidy => "unable to tidy a date"@,
        DateError::InvalidComponent(Component::Day) => "Invalid day"@,
        DateError::InvalidComponent(Component::Month) => "Invalid month"@,
        DateError::InvalidComponent(Component::Year) => "Invalid year"@,
        DateError::AmbiguousFormat => "Unable to determine date format"@,
        DateError::InsufficientComponents => "Insufficient date components"@,
        DateError::SkipRequested => "NA imputation requested"@,
    }
}

impl DateError {
    /// The English text of this failure.
    pub fn message(&self) -> (r: &'static str)
        ensures
            r@ == error_text(*self),
    {
        match self {
            DateError::InvalidFormat => "format should be either 'dmy' or 'mdy'",
            DateError::MonthOutOfRange => "Month not in expected range\n",
            DateError::DayOutOfRange => "Day not in expected range\n",
            DateError::MissingDay => "Missing day with no imputation value given \n",
            DateError::MissingMonth => "Missing month with no imputation value given \n",
            DateError::NotCharacter => "date should be a character",
            DateError::Untidy => "unable to tidy a date",
            DateError::InvalidComponent(Component::Day) => "Invalid day",
            DateError::InvalidComponent(Component::Month) => "Invalid month",
            DateError::InvalidComponent(Component::Year) => "Invalid year",
            DateError::AmbiguousFormat => "Unable to determine date format",
            DateError::InsufficientComponents => "Insufficient date components",
            DateError::SkipRequested => "NA imputation requested",
        }
    }

    /// The text of this failure in `language`.
    pub fn localized(&self, language: Language) -> (r: String)
        ensures
            r@ == translated(language, error_text(*self)),
    {
        tr(language, self.message())
    }
}

/// The diagnostic for a date left unresolved: it names the subject, when
/// there is one, and the original input.
pub open spec fn unresolved_text(language: Language, original: Seq<char>, subject: Option<Seq<char>>) -> Seq<char> {
    match subject {
        Some(s) => translated(language, "NA imputed for subject"@) + seq![' '] + s + seq![' ']
            + translated(language, "(date:"@) + seq![' '] + original + seq![' '] + translated(
            language,
            ")"@,
        ),
        None => translated(language, "NA imputed (date:"@) + seq![' '] + original,
    }
}

/// The diagnostic for a date left unresolved, naming the subject (if any)
/// and the original input.
pub fn unresolved_warning(language: Language, original: &str, subject: Option<&str>) -> (r: String)
    ensures
        r@ == unresolved_text(
            language,
            original@,
            match subject {
                Some(s) => Some(s@),
                None => None,
            },
        ),
{
    match subject {
        Some(subj) => {
            let mut r = na_imputed_for_subject(language);
            r.append(" ");
            r.append(subj);
            r.append(" ");
            r.append(date_open_paren(language).as_str());
            r.append(" ");
            r.append(original);
            r.append(" ");
            r.append(close_paren(language).as_str());
            proof {
                reveal_strlit(" ");
            }
            r
        },
        None => {
            let mut r = na_imputed_date(language);
            r.append(" ");
            r.append(original);
            proof {
                reveal_strlit(" ");
            }
            r
        },
    }
}

} // verus!

//! The locale lexicon: month names in several languages and Roman numeral
//! months, and the rewriting of month-name words into month numbers.
use vstd::prelude::*;
use std::borrow::Cow;
use crate::calendar::{two_digit_chars, two_digits};
use crate::split::string_views;
use crate::text::{chars_of, letter, lowered, white_space, same_chars, string_of, to_lower};

verus! {

/// The lowercase names of January that the lexicon knows.
pub open spec fn names_january(w: Seq<char>) -> bool {
    w == "january"@
        || w == "janvier"@
        || w == "janeiro"@
        || w == "janv"@
        || w == "januar"@
        || w == "jänner"@
        || w == "jän"@
        || w == "enero"@
        || w == "ener"@
        || w == "ene"@
        || w == "jan"@
        || w == "январь"@
        || w == "января"@
        || w == "янв"@
        || w == "januari"@
}

/// The lowercase names of February that the lexicon knows.
pub open spec fn names_february(w: Seq<char>) -> bool {
    w == "february"@
        || w == "février"@
        || w == "fevrier"@
        || w == "fevereiro"@
        || w == "févr"@
        || w == "fevr"@
        || w == "fev"@
        || w == "februar"@
        || w == "febrero"@
        || w == "feb"@
        || w == "февраль"@
        || w == "февраля"@
        || w == "фев"@
        || w == "februari"@
}

/// The lowercase names of March that the lexicon knows.
pub open spec fn names_march(w: Seq<char>) -> bool {
    w == "march"@
        || w == "mars"@
        || w == "märz"@
        || w == "marzo"@
        || w == "março"@
        || w == "marco"@
        || w == "marz"@
        || w == "mar"@
        || w == "март"@
        || w == "мар"@
        || w == "maret"@
}

/// The lowercase names of April that the lexicon knows.
pub open spec fn names_april(w: Seq<char>) -> bool {
    w == "april"@
        || w == "avril"@
        || w == "abril"@
        || w == "abr"@
        || w == "apr"@
        || w == "апрель"@
        || w == "апреля"@
        || w == "апр"@
}

/// The lowercase names of May that the lexicon knows.
pub open spec fn names_may(w: Seq<char>) -> bool {
    w == "mayo"@
        || w == "may"@
        || w == "maio"@
        || w == "mai"@
        || w == "май"@
        || w == "мая"@
        || w == "mei"@
}

/// The lowercase names of June that the lexicon knows.
pub open spec fn names_june(w: Seq<char>) -> bool {
    w == "june"@
        || w == "juin"@
        || w == "junio"@
        || w == "junho"@
        || w == "juni"@
        || w == "jun"@
        || w == "июнь"@
        || w == "июня"@
        || w == "июн"@
}

/// The lowercase names of July that the lexicon knows.
pub open spec fn names_july(w: Seq<char>) -> bool {
    w == "july"@
        || w == "juillet"@
        || w == "juil"@
        || w == "julio"@
        || w == "julho"@
        || w == "juli"@
        || w == "jul"@
        || w == "июль"@
        || w == "июля"@
        || w == "июл"@
}

/// The lowercase names of August that the lexicon knows.
pub open spec fn names_august(w: Seq<char>) -> bool {
    w == "august"@
        || w == "aug"@
        || w == "août"@
        || w == "aout"@
        || w == "agosto"@
        || w == "август"@
        || w == "авг"@
        || w == "agustus"@
}

/// The lowercase names of September that the lexicon knows.
pub open spec fn names_september(w: Seq<char>) -> bool {
    w == "september"@
        || w == "septembre"@
        || w == "septiembre"@
        || w == "setembro"@
        || w == "set"@
        || w == "sept"@
        || w == "sep"@
        || w == "сентябрь"@
        || w == "сентября"@
        || w == "сент"@
}

/// The lowercase names of October that the lexicon knows.
pub open spec fn names_october(w: Seq<char>) -> bool {
    w == "october"@
        || w == "octobre"@
        || w == "oktober"@
        || w == "okt"@
        || w == "octubre"@
        || w == "outubro"@
        || w == "oct"@
        || w == "out"@
        || w == "октябрь"@
        || w == "октября"@
        || w == "окт"@
}

/// The lowercase names of November that the lexicon knows.
pub open spec fn names_november(w: Seq<char>) -> bool {
    w == "november"@
        || w == "novembre"@
        || w == "noviembre"@
        || w == "novembro"@
        || w == "nov"@
        || w == "ноябрь"@
        || w == "ноября"@
        || w == "ноя"@
}

/// The lowercase names of December that the lexicon knows.
pub open spec fn names_december(w: Seq<char>) -> bool {
    w == "december"@
        || w == "décembre"@
        || w == "decembre"@
        || w == "déc"@
        || w == "dezember"@
        || w == "dezembro"@
        || w == "dez"@
        || w == "diciembre"@
        || w == "dic"@
        || w == "dec"@
        || w == "декабрь"@
        || w == "декабря"@
        || w == "дек"@
        || w == "desember"@
}

/// The month (1 to 12) that a lowercase word names, if any.
pub open spec fn month_of_name(w: Seq<char>) -> Option<u8> {
    if names_january(w) {
        Some(1u8)
    } else if names_february(w) {
        Some(2u8)
    } else if names_march(w) {
        Some(3u8)
    } else if names_april(w) {
        Some(4u8)
    } else if names_may(w) {
        Some(5u8)
    } else if names_june(w) {
        Some(6u8)
    } else if names_july(w) {
        Some(7u8)
    } else if names_august(w) {
        Some(8u8)
    } else if names_september(w) {
        Some(9u8)
    } else if names_october(w) {
        Some(10u8)
    } else if names_november(w) {
        Some(11u8)
    } else if names_december(w) {
        Some(12u8)
    } else {
        None
    }
}

fn is_january(w: &Vec<char>) -> (r: bool)
    ensures
        r == names_january(w@),
{
    same_chars(w, "january")
        || same_chars(w, "janvier")
        || same_chars(w, "janeiro")
        || same_chars(w, "janv")
        || same_chars(w, "januar")
        || same_chars(w, "jänner")
        || same_chars(w, "jän")
        || same_chars(w, "enero")
        || same_chars(w, "ener")
        || same_chars(w, "ene")
        || same_chars(w, "jan")
        || same_chars(w, "январь")
        || same_chars(w, "января")
        || same_chars(w, "янв")
        || same_chars(w, "januari")
}

fn is_february(w: &Vec<char>) -> (r: bool)
    ensures
        r == names_february(w@),
{
    same_chars(w, "february")
        || same_chars(w, "février")
        || same_chars(w, "fevrier")
        || same_chars(w, "fevereiro")
        || same_chars(w, "févr")
        || same_chars(w, "fevr")
        || same_chars(w, "fev")
        || same_chars(w, "februar")
        || same_chars(w, "febrero")
        || same_chars(w, "feb")
        || same_chars(w, "февраль")
        || same_chars(w, "февраля")
        || same_chars(w, "фев")
        || same_chars(w, "februari")
}

fn is_march(w: &Vec<char>) -> (r: bool)
    ensures
        r == names_march(w@),
{
    same_chars(w, "march")
        || same_chars(w, "mars")
        || same_chars(w, "märz")
        || same_chars(w, "marzo")
        || same_chars(w, "março")
        || same_chars(w, "marco")
        || same_chars(w, "marz")
        || same_chars(w, "mar")
        || same_chars(w, "март")
        || same_chars(w, "мар")
        || same_chars(w, "maret")
}

fn is_april(w: &Vec<char>) -> (r: bool)
    ensures
        r == names_april(w@),
{
    same_chars(w, "april")
        || same_chars(w, "avril")
        || same_chars(w, "abril")
        || same_chars(w, "abr")
        || same_chars(w, "apr")
        || same_chars(w, "апрель")
        || same_chars(w, "апреля")
        || same_chars(w, "апр")
}

fn is_may(w: &Vec<char>) -> (r: bool)
    ensures
        r == names_may(w@),
{
    same_chars(w, "mayo")
        || same_chars(w, "may")
        || same_chars(w, "maio")
        || same_chars(w, "mai")
        || same_chars(w, "май")
        || same_chars(w, "мая")
        || same_chars(w, "mei")
}

fn is_june(w: &Vec<char>) -> (r: bool)
    ensures
        r == names_june(w@),
{
    same_chars(w, "june")
        || same_chars(w, "juin")
        || same_chars(w, "junio")
        || same_chars(w, "junho")
        || same_chars(w, "juni")
        || same_chars(w, "jun")
        || same_chars(w, "июнь")
        || same_chars(w, "июня")
        || same_chars(w, "июн")
}

fn is_july(w: &Vec<char>) -> (r: bool)
    ensures
        r == names_july(w@),
{
    same_chars(w, "july")
        || same_chars(w, "juillet")
        || same_chars(w, "juil")
        || same_chars(w, "julio")
        || same_chars(w, "julho")
        || same_chars(w, "juli")
        || same_chars(w, "jul")
        || same_chars(w, "июль")
        || same_chars(w, "июля")
        || same_chars(w, "июл")
}

fn is_august(w: &Vec<char>) -> (r: bool)
    ensures
        r == names_august(w@),
{
    same_chars(w, "august")
        || same_chars(w, "aug")
        || same_chars(w, "août")
        || same_chars(w, "aout")
        || same_chars(w, "agosto")
        || same_chars(w, "август")
        || same_chars(w, "авг")
        || same_chars(w, "agustus")
}

fn is_september(w: &Vec<char>) -> (r: bool)
    ensures
        r == names_september(w@),
{
    same_chars(w, "september")
        || same_chars(w, "septembre")
        || same_chars(w, "septiembre")
        || same_chars(w, "setembro")
        || same_chars(w, "set")
        || same_chars(w, "sept")
        || same_chars(w, "sep")
        || same_chars(w, "сентябрь")
        || same_chars(w, "сентября")
        || same_chars(w, "сент")
}

fn is_october(w: &Vec<char>) -> (r: bool)
    ensures
        r == names_october(w@),
{
    same_chars(w, "october")
        || same_chars(w, "octobre")
        || same_chars(w, "oktober")
        || same_chars(w, "okt")
        || same_chars(w, "octubre")
        || same_chars(w, "outubro")
        || same_chars(w, "oct")
        || same_chars(w, "out")
        || same_chars(w, "октябрь")
        || same_chars(w, "октября")
        || same_chars(w, "окт")
}

fn is_november(w: &Vec<char>) -> (r: bool)
    ensures
        r == names_november(w@),
{
    same_chars(w, "november")
        || same_chars(w, "novembre")
        || same_chars(w, "noviembre")
        || same_chars(w, "novembro")
        || same_chars(w, "nov")
        || same_chars(w, "ноябрь")
        || same_chars(w, "ноября")
        || same_chars(w, "ноя")
}

fn is_december(w: &Vec<char>) -> (r: bool)
    ensures
        r == names_december(w@),
{
    same_chars(w, "december")
        || same_chars(w, "décembre")
        || same_chars(w, "decembre")
        || same_chars(w, "déc")
        || same_chars(w, "dezember")
        || same_chars(w, "dezembro")
        || same_chars(w, "dez")
        || same_chars(w, "diciembre")
        || same_chars(w, "dic")
        || same_chars(w, "dec")
        || same_chars(w, "декабрь")
        || same_chars(w, "декабря")
        || same_chars(w, "дек")
        || same_chars(w, "desember")
}

/// The month that the lowercase word `w` names, if any.
pub fn month_number(w: &Vec<char>) -> (r: Option<u8>)
    ensures
        r == month_of_name(w@),
{
    if is_january(w) {
        Some(1)
    } else if is_february(w) {
        Some(2)
    } else if is_march(w) {
        Some(3)
    } else if is_april(w) {
        Some(4)
    } else if is_may(w) {
        Some(5)
    } else if is_june(w) {
        Some(6)
    } else if is_july(w) {
        Some(7)
    } else if is_august(w) {
        Some(8)
    } else if is_september(w) {
        Some(9)
    } else if is_october(w) {
        Some(10)
    } else if is_november(w) {
        Some(11)
    } else if is_december(w) {
        Some(12)
    } else {
        None
    }
}

/// The month (1 to 12) that a lowercase Roman numeral names, if any.
pub open spec fn roman_month(w: Seq<char>) -> Option<u8> {
    if w == "i"@ {
        Some(1u8)
    } else if w == "ii"@ {
        Some(2u8)
    } else if w == "iii"@ {
        Some(3u8)
    } else if w == "iv"@ {
        Some(4u8)
    } else if w == "v"@ {
        Some(5u8)
    } else if w == "vi"@ {
        Some(6u8)
    } else if w == "vii"@ {
        Some(7u8)
    } else if w == "viii"@ {
        Some(8u8)
    } else if w == "ix"@ {
        Some(9u8)
    } else if w == "x"@ {
        Some(10u8)
    } else if w == "xi"@ {
        Some(11u8)
    } else if w == "xii"@ {
        Some(12u8)
    } else {
        None
    }
}

fn roman_number(w: &Vec<char>) -> (r: Option<u8>)
    ensures
        r == roman_month(w@),
{
    if same_chars(w, "i") {
        Some(1)
    } else if same_chars(w, "ii") {
        Some(2)
    } else if same_chars(w, "iii") {
        Some(3)
    } else if same_chars(w, "iv") {
        Some(4)
    } else if same_chars(w, "v") {
        Some(5)
    } else if same_chars(w, "vi") {
        Some(6)
    } else if same_chars(w, "vii") {
        Some(7)
    } else if same_chars(w, "viii") {
        Some(8)
    } else if same_chars(w, "ix") {
        Some(9)
    } else if same_chars(w, "x") {
        Some(10)
    } else if same_chars(w, "xi") {
        Some(11)
    } else if same_chars(w, "xii") {
        Some(12)
    } else {
        None
    }
}

/// Looks up a month name, whatever its case.
pub fn fast_month_lookup(text: &str) -> (r: Option<u8>)
    ensures
        r == month_of_name(lowered(text@)),
{
    month_number(&to_lower(&chars_of(text)))
}

/// Does the first component name a month?
pub open spec fn leads_with_month(tokens: Seq<Seq<char>>) -> bool {
    tokens.len() > 0 && month_of_name(lowered(tokens[0])) is Some
}

/// Does the first component name a month (in any case)?
pub fn first_is_month(date_vec: &[String]) -> (r: bool)
    ensures
        r == leads_with_month(string_views(date_vec@)),
{
    if date_vec.len() == 0 {
        return false;
    }
    let first = to_lower(&chars_of(date_vec[0].as_str()));
    month_number(&first).is_some()
}

/// The components with a Roman numeral second component rewritten as a
/// two-digit month.
pub open spec fn with_roman_month(tokens: Seq<Seq<char>>) -> Seq<Seq<char>> {
    if tokens.len() >= 2 {
        match roman_month(lowered(tokens[1])) {
            Some(m) => tokens.update(1, two_digits(m as int)),
            None => tokens,
        }
    } else {
        tokens
    }
}

/// Rewrites a Roman numeral month ("xii") in second position as two digits.
pub fn roman_conversion(date_vec: Vec<String>) -> (r: Vec<String>)
    ensures
        string_views(r@) == with_roman_month(string_views(date_vec@)),
{
    let mut date_vec = date_vec;
    if date_vec.len() >= 2 {
        let second = to_lower(&chars_of(date_vec[1].as_str()));
        if let Some(m) = roman_number(&second) {
            let ghost before = date_vec@;
            date_vec.set(1, string_of(&two_digit_chars(m as i32)));
            assert(string_views(date_vec@) =~= string_views(before).update(1, two_digits(m as int)));
        }
    }
    date_vec
}

/// `w` without the non-alphabetic characters at either end.
pub open spec fn alpha_core(w: Seq<char>) -> Seq<char>
    decreases w.len(),
{
    if w.len() > 0 && !letter(w[0]) {
        alpha_core(w.skip(1))
    } else if w.len() > 0 && !letter(w.last()) {
        alpha_core(w.drop_last())
    } else {
        w
    }
}

fn trim_non_alphabetic(v: &Vec<char>) -> (r: Vec<char>)
    ensures
        r@ == alpha_core(v@),
{
    let mut lo: usize = 0;
    let mut hi: usize = v.len();
    assert(v@.subrange(0, hi as int) =~= v@);
    while lo < hi && !crate::text::is_alphabetic(v[lo])
        invariant
            lo <= hi <= v.len(),
            hi == v.len(),
            alpha_core(v@) == alpha_core(v@.subrange(lo as int, hi as int)),
        decreases hi - lo,
    {
        assert(v@.subrange(lo as int, hi as int).skip(1) =~= v@.subrange(lo + 1, hi as int));
        lo = lo + 1;
    }
    while lo < hi && !crate::text::is_alphabetic(v[hi - 1])
        invariant
            lo <= hi <= v.len(),
            lo == hi || letter(v@[lo as int]),
            alpha_core(v@) == alpha_core(v@.subrange(lo as int, hi as int)),
        decreases hi - lo,
    {
        assert(v@.subrange(lo as int, hi as int).drop_last() =~= v@.subrange(
            lo as int,
            hi - 1,
        ));
        hi = hi - 1;
    }
    let mut r: Vec<char> = Vec::new();
    let mut k: usize = lo;
    while k < hi
        invariant
            lo <= k <= hi <= v.len(),
            r@ == v@.subrange(lo as int, k as int),
        decreases hi - k,
    {
        r.push(v[k]);
        k = k + 1;
        assert(r@ =~= v@.subrange(lo as int, k as int));
    }
    r
}

/// The month that a word names once non-letters at its ends are dropped.
pub open spec fn word_month(w: Seq<char>) -> Option<u8> {
    month_of_name(lowered(alpha_core(w)))
}

/// A word as the resolver writes it: its month number when it names a
/// month, else itself.
pub open spec fn rewritten_word(w: Seq<char>) -> Seq<char> {
    match word_month(w) {
        Some(m) => two_digits(m as int),
        None => w,
    }
}

/// `w` as a list of words: empty when `w` is empty.
pub open spec fn as_words(w: Seq<char>) -> Seq<Seq<char>> {
    if w.len() > 0 {
        seq![w]
    } else {
        Seq::empty()
    }
}

/// The white-space separated words of `word` followed by `s`, where `word`
/// is a word in progress (as `str::split_whitespace` gives them).
pub open spec fn words_after(s: Seq<char>, word: Seq<char>) -> Seq<Seq<char>>
    decreases s.len(),
{
    if s.len() == 0 {
        as_words(word)
    } else if white_space(s[0]) {
        as_words(word) + words_after(s.skip(1), Seq::empty())
    } else {
        words_after(s.skip(1), word.push(s[0]))
    }
}

/// The white-space separated words of `s`.
pub open spec fn words(s: Seq<char>) -> Seq<Seq<char>> {
    words_after(s, Seq::empty())
}

/// `word` followed by `s`, each word rewritten by `rewritten_word` and
/// every white space character kept in its place.
pub open spec fn rewritten_after(s: Seq<char>, word: Seq<char>) -> Seq<char>
    decreases s.len(),
{
    if s.len() == 0 {
        rewritten_word(word)
    } else if white_space(s[0]) {
        rewritten_word(word) + seq![s[0]] + rewritten_after(s.skip(1), Seq::empty())
    } else {
        rewritten_after(s.skip(1), word.push(s[0]))
    }
}

pub open spec fn has_month_word(ws: Seq<Seq<char>>) -> bool {
    exists|i: int| 0 <= i < ws.len() && (#[trigger] word_month(ws[i])) is Some
}

/// Is some word that names no month written with capitals?
pub open spec fn has_capitalised_word(ws: Seq<Seq<char>>) -> bool {
    exists|i: int|
        0 <= i < ws.len() && (#[trigger] word_month(ws[i])) is None && alpha_core(ws[i])
            != lowered(alpha_core(ws[i]))
}

/// `s` with each month-name word rewritten as its two-digit month number and
/// everything else kept; with no month name but a capitalised word, `s` in
/// lowercase; otherwise `s`.
pub open spec fn month_converted(s: Seq<char>) -> Seq<char> {
    let ws = words(s);
    if has_month_word(ws) {
        rewritten_after(s, Seq::empty())
    } else if has_capitalised_word(ws) {
        lowered(s)
    } else {
        s
    }
}

/// The rewritten form of a word, whether it names a month, and whether it
/// is a non-month word with capitals.
fn resolve_word(w: &Vec<char>) -> (r: (Vec<char>, bool, bool))
    ensures
        r.0@ == rewritten_word(w@),
        r.1 == (word_month(w@) is Some),
        r.2 == (word_month(w@) is None && alpha_core(w@) != lowered(alpha_core(w@))),
{
    let core = trim_non_alphabetic(w);
    let lower = to_lower(&core);
    match month_number(&lower) {
        Some(m) => (two_digit_chars(m as i32), true, false),
        None => {
            let capital = !crate::text::same_chars_vec(&core, &lower);
            (w.clone(), false, capital)
        },
    }
}

proof fn lemma_flags_push(ws: Seq<Seq<char>>, w: Seq<char>)
    ensures
        has_month_word(ws.push(w)) == (has_month_word(ws) || word_month(w) is Some),
        has_capitalised_word(ws.push(w)) == (has_capitalised_word(ws) || (word_month(w) is None
            && alpha_core(w) != lowered(alpha_core(w)))),
{
    let next = ws.push(w);
    if has_month_word(next) && !has_month_word(ws) {
        let j = choose|j: int| 0 <= j < next.len() && (#[trigger] word_month(next[j])) is Some;
        assert(j == ws.len() || ws[j] == next[j]);
    }
    if has_month_word(ws) {
        let j = choose|j: int| 0 <= j < ws.len() && (#[trigger] word_month(ws[j])) is Some;
        assert(ws[j] == next[j]);
    }
    if word_month(w) is Some {
        assert(next[ws.len() as int] == w);
    }
    if has_capitalised_word(next) && !has_capitalised_word(ws) {
        let j = choose|j: int|
            0 <= j < next.len() && (#[trigger] word_month(next[j])) is None && alpha_core(next[j])
                != lowered(alpha_core(next[j]));
        assert(j == ws.len() || ws[j] == next[j]);
    }
    if has_capitalised_word(ws) {
        let j = choose|j: int|
            0 <= j < ws.len() && (#[trigger] word_month(ws[j])) is None && alpha_core(ws[j])
                != lowered(alpha_core(ws[j]));
        assert(ws[j] == next[j]);
    }
    if word_month(w) is None && alpha_core(w) != lowered(alpha_core(w)) {
        assert(next[ws.len() as int] == w);
    }
}

/// Appends the rewritten form of `word` to `out`; gives whether `word` is a
/// word that names a month, and whether it is one written with capitals
/// that names none.
fn flush_word(out: &mut Vec<char>, word: &Vec<char>) -> (r: (bool, bool))
    ensures
        final(out)@ == old(out)@ + rewritten_word(word@),
        has_month_word(as_words(word@)) == r.0,
        has_capitalised_word(as_words(word@)) == r.1,
{
    let (text, month, capital) = resolve_word(word);
    let mut k: usize = 0;
    while k < text.len()
        invariant
            k <= text@.len(),
            out@ == old(out)@ + text@.take(k as int),
        decreases text.len() - k,
    {
        out.push(text[k]);
        k = k + 1;
        assert(out@ =~= old(out)@ + text@.take(k as int));
    }
    assert(text@.take(k as int) =~= text@);
    proof {
        lemma_flags_push(Seq::empty(), word@);
        assert(Seq::<Seq<char>>::empty().push(word@) =~= seq![word@]);
    }
    if word.len() > 0 {
        (month, capital)
    } else {
        (false, false)
    }
}

proof fn lemma_flags_concat(done: Seq<Seq<char>>, w: Seq<char>)
    ensures
        has_month_word(done + as_words(w)) == (has_month_word(done) || has_month_word(as_words(w))),
        has_capitalised_word(done + as_words(w)) == (has_capitalised_word(done)
            || has_capitalised_word(as_words(w))),
{
    lemma_flags_push(Seq::empty(), w);
    assert(Seq::<Seq<char>>::empty().push(w) =~= seq![w]);
    if w.len() > 0 {
        lemma_flags_push(done, w);
        assert(done + as_words(w) =~= done.push(w));
    } else {
        assert(done + as_words(w) =~= done);
    }
}

/// `s` with its month-name words rewritten, and whether `s` changed.
pub fn convert_chars(s: &Vec<char>) -> (r: (Vec<char>, bool))
    ensures
        r.0@ == month_converted(s@),
        !r.1 ==> r.0@ == s@,
{
    let mut out: Vec<char> = Vec::new();
    let mut word: Vec<char> = Vec::new();
    let ghost mut done: Seq<Seq<char>> = Seq::empty();
    let mut any_month = false;
    let mut any_capital = false;
    let mut i: usize = 0;
    assert(s@.skip(0) =~= s@);
    assert(Seq::<Seq<char>>::empty() + words(s@) =~= words(s@));
    while i < s.len()
        invariant
            i <= s@.len(),
            rewritten_after(s@, Seq::empty()) == out@ + rewritten_after(s@.skip(i as int), word@),
            words(s@) == done + words_after(s@.skip(i as int), word@),
            any_month == has_month_word(done),
            any_capital == has_capitalised_word(done),
        decreases s.len() - i,
    {
        let ghost rest = s@.skip(i as int);
        assert(rest.skip(1) =~= s@.skip(i + 1));
        if crate::text::is_white_space(s[i]) {
            let ghost before = out@;
            let (month, capital) = flush_word(&mut out, &word);
            out.push(s[i]);
            assert(out@ =~= before + rewritten_word(word@) + seq![rest[0]]);
            proof {
                lemma_flags_concat(done, word@);
                assert(done + (as_words(word@) + words_after(rest.skip(1), Seq::empty())) =~= (done
                    + as_words(word@)) + words_after(rest.skip(1), Seq::empty()));
                done = done + as_words(word@);
            }
            any_month = any_month || month;
            any_capital = any_capital || capital;
            word = Vec::new();
        } else {
            word.push(s[i]);
        }
        i = i + 1;
    }
    assert(s@.skip(i as int) =~= Seq::<char>::empty());
    let (month, capital) = flush_word(&mut out, &word);
    proof {
        lemma_flags_concat(done, word@);
    }
    if any_month || month {
        (out, true)
    } else if any_capital || capital {
        (to_lower(s), true)
    } else {
        (s.clone(), false)
    }
}

/// Rewrites each month-name word of `date` as its two-digit month number
/// ("january 2020" gives "01 2020"), keeping the other words and the white
/// space between them; without a month name but with a capitalised word,
/// gives `date` in lowercase; otherwise `date` borrowed.
pub fn convert_text_month_optimized(date: &str) -> (r: Cow<'_, str>)
    ensures
        r@ == month_converted(date@),
{
    let (out, changed) = convert_chars(&chars_of(date));
    if changed {
        Cow::Owned(string_of(&out))
    } else {
        Cow::Borrowed(date)
    }
}

} // verus!

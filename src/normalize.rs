//! Cleaning of raw date text: replacement of substrings, removal of ordinal
//! suffixes, French and Russian noise, and trimming.
use vstd::prelude::*;
use vstd::string::*;
use std::borrow::Cow;
use crate::text::{ascii_digit, chars_of, string_of, trim_chars, trimmed};

verus! {

/// Does `p` occur in `s` at index `i`?
pub open spec fn occurs_at(s: Seq<char>, i: int, p: Seq<char>) -> bool {
    0 <= i && i + p.len() <= s.len() && s.subrange(i, i + p.len()) == p
}

/// Does the phrase `p` occur anywhere in `s`?
pub open spec fn has_phrase(s: Seq<char>, p: Seq<char>) -> bool {
    exists|i: int| occurs_at(s, i, p)
}

/// Does `str::contains` find `p` in `s`? (An empty pattern is always found.)
pub open spec fn found_in(s: Seq<char>, p: Seq<char>) -> bool {
    p.len() == 0 || has_phrase(s, p)
}

/// `to` before each character of `s` and once more at its end: what
/// `str::replace` gives for an empty pattern.
pub open spec fn interleaved(s: Seq<char>, to: Seq<char>) -> Seq<char>
    decreases s.len(),
{
    if s.len() == 0 {
        to
    } else {
        to + seq![s[0]] + interleaved(s.skip(1), to)
    }
}

/// `s` with each occurrence of `from` replaced by `to`, occurrences taken
/// from the left without overlap, as `str::replace` does.
pub open spec fn replaced(s: Seq<char>, from: Seq<char>, to: Seq<char>) -> Seq<char>
    decreases s.len(),
{
    if from.len() == 0 {
        interleaved(s, to)
    } else if occurs_at(s, 0, from) {
        to + replaced(s.skip(from.len() as int), from, to)
    } else if s.len() > 0 {
        seq![s[0]] + replaced(s.skip(1), from, to)
    } else {
        s
    }
}

/// The replacements of `patterns` applied in turn.
pub open spec fn replaced_all(s: Seq<char>, patterns: Seq<(Seq<char>, Seq<char>)>) -> Seq<char>
    decreases patterns.len(),
{
    if patterns.len() == 0 {
        s
    } else {
        let before = replaced_all(s, patterns.drop_last());
        replaced(before, patterns.last().0, patterns.last().1)
    }
}

pub open spec fn pattern_views(patterns: Seq<(&str, &str)>) -> Seq<(Seq<char>, Seq<char>)> {
    patterns.map_values(|p: (&str, &str)| (p.0@, p.1@))
}

/// Does `p` occur in `s` at index `i`?
pub(crate) fn matches_at(s: &Vec<char>, i: usize, p: &Vec<char>) -> (r: bool)
    requires
        i <= s@.len(),
    ensures
        r == occurs_at(s@, i as int, p@),
{
    if p.len() > s.len() - i {
        return false;
    }
    let mut k: usize = 0;
    while k < p.len()
        invariant
            i <= s@.len(),
            i + p@.len() <= s.len(),
            k <= p@.len(),
            s@.subrange(i as int, i + k) == p@.take(k as int),
        decreases p.len() - k,
    {
        let j: usize = i + k;
        if s[j] != p[k] {
            assert(s@.subrange(i as int, i + p@.len())[k as int] != p@[k as int]);
            return false;
        }
        k = k + 1;
        assert(s@.subrange(i as int, i + k) =~= p@.take(k as int));
    }
    assert(p@.take(k as int) =~= p@);
    true
}

fn append_chars(out: &mut Vec<char>, extra: &Vec<char>)
    ensures
        final(out)@ == old(out)@ + extra@,
{
    let mut k: usize = 0;
    while k < extra.len()
        invariant
            k <= extra@.len(),
            out@ == old(out)@ + extra@.take(k as int),
        decreases extra.len() - k,
    {
        out.push(extra[k]);
        k = k + 1;
        assert(out@ =~= old(out)@ + extra@.take(k as int));
    }
    assert(extra@.take(k as int) =~= extra@);
}

proof fn lemma_interleaved_step(s: Seq<char>, i: int, to: Seq<char>)
    requires
        0 <= i < s.len(),
    ensures
        interleaved(s.skip(i), to) == to + seq![s[i]] + interleaved(s.skip(i + 1), to),
{
    assert(s.skip(i).skip(1) =~= s.skip(i + 1));
}

/// `s` with every occurrence of `from` replaced by `to`, and whether `from`
/// occurs in `s` at all.
pub(crate) fn replace_chars(s: &Vec<char>, from: &Vec<char>, to: &Vec<char>) -> (r: (Vec<char>, bool))
    ensures
        r.0@ == replaced(s@, from@, to@),
        !r.1 ==> r.0@ == s@,
        r.1 == found_in(s@, from@),
{
    let mut out: Vec<char> = Vec::new();
    let mut found = false;
    let mut i: usize = 0;
    if from.len() == 0 {
        assert(s@.skip(0) =~= s@);
        while i < s.len()
            invariant
                i <= s@.len(),
                from@.len() == 0,
                replaced(s@, from@, to@) == out@ + interleaved(s@.skip(i as int), to@),
            decreases s.len() - i,
        {
            proof {
                lemma_interleaved_step(s@, i as int, to@);
            }
            append_chars(&mut out, to);
            out.push(s[i]);
            i = i + 1;
            assert(replaced(s@, from@, to@) =~= out@ + interleaved(s@.skip(i as int), to@));
        }
        append_chars(&mut out, to);
        assert(s@.skip(i as int) =~= Seq::<char>::empty());
        return (out, true);
    }
    assert(s@.skip(0) =~= s@);
    while i < s.len()
        invariant
            i <= s@.len(),
            from@.len() > 0,
            replaced(s@, from@, to@) == out@ + replaced(s@.skip(i as int), from@, to@),
            !found ==> out@ == s@.take(i as int),
            found ==> has_phrase(s@, from@),
            !found ==> forall|j: int| 0 <= j < i ==> !occurs_at(s@, j, from@),
        decreases s.len() - i,
    {
        let ghost rest = s@.skip(i as int);
        if matches_at(s, i, from) {
            assert(rest.subrange(0, from@.len() as int) =~= s@.subrange(
                i as int,
                i + from@.len(),
            ));
            assert(rest.skip(from@.len() as int) =~= s@.skip(i + from@.len()));
            append_chars(&mut out, to);
            found = true;
            i = i + from.len();
            assert(replaced(s@, from@, to@) =~= out@ + replaced(s@.skip(i as int), from@, to@));
        } else {
            assert(!occurs_at(rest, 0, from@)) by {
                if occurs_at(rest, 0, from@) {
                    assert(rest.subrange(0, from@.len() as int) =~= s@.subrange(
                        i as int,
                        i + from@.len(),
                    ));
                }
            };
            assert(rest.skip(1) =~= s@.skip(i + 1));
            out.push(s[i]);
            i = i + 1;
            assert(replaced(s@, from@, to@) =~= out@ + replaced(s@.skip(i as int), from@, to@));
            assert(!found ==> out@ =~= s@.take(i as int));
        }
    }
    assert(s@.skip(i as int) =~= Seq::<char>::empty());
    assert(s@.take(i as int) =~= s@);
    assert(!found ==> !has_phrase(s@, from@)) by {
        if !found && has_phrase(s@, from@) {
            let j = choose|j: int| occurs_at(s@, j, from@);
            assert(j < i);
        }
    };
    (out, found)
}

/// Is any pattern's `from` found in `s`?
pub open spec fn any_found(s: Seq<char>, patterns: Seq<(Seq<char>, Seq<char>)>) -> bool {
    exists|k: int| 0 <= k < patterns.len() && found_in(s, (#[trigger] patterns[k]).0)
}

/// Applies each replacement `(from, to)` of `patterns` in turn; the input is
/// handed back borrowed when no pattern occurs.
pub fn replace_all_optimized<'a>(input: &'a str, patterns: &[(&str, &str)]) -> (r: Cow<'a, str>)
    ensures
        r@ == replaced_all(input@, pattern_views(patterns@)),
        (r matches Cow::Borrowed(_)) <==> !any_found(input@, pattern_views(patterns@)),
{
    let mut cur = chars_of(input);
    let mut changed = false;
    let mut i: usize = 0;
    while i < patterns.len()
        invariant
            i <= patterns@.len(),
            cur@ == replaced_all(input@, pattern_views(patterns@.take(i as int))),
            !changed ==> cur@ == input@,
            changed == any_found(input@, pattern_views(patterns@.take(i as int))),
        decreases patterns.len() - i,
    {
        let (from, to) = patterns[i];
        let (next, found) = replace_chars(&cur, &chars_of(from), &chars_of(to));
        let ghost before = pattern_views(patterns@.take(i as int));
        let ghost after = pattern_views(patterns@.take(i + 1));
        assert(after =~= before.push((from@, to@)));
        assert(changed || found ==> any_found(input@, after)) by {
            if changed {
                let k = choose|k: int| 0 <= k < before.len() && found_in(input@, (#[trigger] before[k]).0);
                assert(after[k] == before[k]);
            } else if found {
                assert(after[i as int] == (from@, to@));
            }
        };
        assert(any_found(input@, after) ==> changed || found) by {
            if any_found(input@, after) && !changed {
                let k = choose|k: int| 0 <= k < after.len() && found_in(input@, (#[trigger] after[k]).0);
                if k < i {
                    assert(after[k] == before[k]);
                }
            }
        };
        assert(pattern_views(patterns@.take(i + 1)).drop_last() =~= pattern_views(
            patterns@.take(i as int),
        ));
        cur = next;
        changed = changed || found;
        i = i + 1;
    }
    assert(patterns@.take(i as int) =~= patterns@);
    if changed {
        Cow::Owned(string_of(&cur))
    } else {
        Cow::Borrowed(input)
    }
}

/// Is `a` followed by `b` an English ordinal suffix?
pub open spec fn ordinal_suffix(a: char, b: char) -> bool {
    (a == 's' && b == 't') || (a == 'n' && b == 'd') || (a == 'r' && b == 'd') || (a == 't' && b
        == 'h')
}

/// `s` without the ordinal suffixes `st`, `nd`, `rd`, `th` that directly
/// follow a digit ("1st" gives "1", "4th," gives "4,").
pub open spec fn without_ordinals(s: Seq<char>) -> Seq<char>
    decreases s.len(),
{
    if s.len() >= 3 && ascii_digit(s[0]) && ordinal_suffix(s[1], s[2]) {
        seq![s[0]] + without_ordinals(s.skip(3))
    } else if s.len() > 0 {
        seq![s[0]] + without_ordinals(s.skip(1))
    } else {
        s
    }
}

fn strip_ordinals(s: &Vec<char>) -> (r: (Vec<char>, bool))
    ensures
        r.0@ == without_ordinals(s@),
        !r.1 ==> r.0@ == s@,
{
    let mut out: Vec<char> = Vec::new();
    let mut found = false;
    let mut i: usize = 0;
    assert(s@.skip(0) =~= s@);
    while i < s.len()
        invariant
            i <= s@.len(),
            without_ordinals(s@) == out@ + without_ordinals(s@.skip(i as int)),
            !found ==> out@ == s@.take(i as int),
        decreases s.len() - i,
    {
        let ghost rest = s@.skip(i as int);
        let c = s[i];
        if s.len() - i >= 3 && '0' <= c && c <= '9' && ((s[i + 1] == 's' && s[i + 2] == 't') || (
        s[i + 1] == 'n' && s[i + 2] == 'd') || (s[i + 1] == 'r' && s[i + 2] == 'd') || (s[i + 1]
            == 't' && s[i + 2] == 'h')) {
            assert(rest.skip(3) =~= s@.skip(i + 3));
            out.push(c);
            found = true;
            i = i + 3;
        } else {
            assert(rest.skip(1) =~= s@.skip(i + 1));
            out.push(c);
            i = i + 1;
            assert(!found ==> out@ =~= s@.take(i as int));
        }
        assert(without_ordinals(s@) =~= out@ + without_ordinals(s@.skip(i as int)));
    }
    assert(s@.skip(i as int) =~= Seq::<char>::empty());
    assert(s@.take(i as int) =~= s@);
    (out, found)
}

/// Removes the ordinal suffixes that follow a digit ("1st January" gives
/// "1 January"); the input is handed back borrowed when there is none.
pub fn rm_ordinal_suffixes_optimized(date: &str) -> (r: Cow<'_, str>)
    ensures
        r@ == without_ordinals(date@),
{
    let s = chars_of(date);
    let (out, found) = strip_ordinals(&s);
    if found {
        Cow::Owned(string_of(&out))
    } else {
        Cow::Borrowed(date)
    }
}

/// French articles and the contracted first day removed.
pub open spec fn without_french_noise(s: Seq<char>) -> Seq<char> {
    replaced(replaced(replaced(s, "le "@, " "@), "Le "@, " "@), "1er"@, "01"@)
}

/// The Russian genitive of March and August brought to the nominative.
pub open spec fn russian_nominative(s: Seq<char>) -> Seq<char> {
    replaced(
        replaced(replaced(replaced(s, "марта"@, "март"@), "Марта"@, "Март"@), "августа"@, "август"@),
        "Августа"@,
        "Август"@,
    )
}

/// The cleaned form of a raw date: ordinal suffixes, French articles and
/// Russian genitive endings removed, then surrounding white space trimmed.
pub open spec fn cleaned(s: Seq<char>) -> Seq<char> {
    trimmed(russian_nominative(without_french_noise(without_ordinals(s))))
}

fn replace_str(s: &Vec<char>, from: &str, to: &str) -> (r: Vec<char>)
    ensures
        r@ == replaced(s@, from@, to@),
{
    replace_chars(s, &chars_of(from), &chars_of(to)).0
}

/// The cleaned form of `date`, as characters.
pub fn clean_chars(date: &str) -> (r: Vec<char>)
    ensures
        r@ == cleaned(date@),
{
    let s = chars_of(date);
    let (s, _) = strip_ordinals(&s);
    let s = replace_str(&s, "le ", " ");
    let s = replace_str(&s, "Le ", " ");
    let s = replace_str(&s, "1er", "01");
    let s = replace_str(&s, "марта", "март");
    let s = replace_str(&s, "Марта", "Март");
    let s = replace_str(&s, "августа", "август");
    let s = replace_str(&s, "Августа", "Август");
    trim_chars(&s)
}

/// Cleans a raw date string: removes ordinal suffixes, French articles
/// ("le ", "1er"), Russian genitive month endings, and surrounding white
/// space. The input is handed back borrowed when none of these is present.
pub fn clean_date_string_combined(date: &str) -> (r: Cow<'_, str>)
    ensures
        r@ == cleaned(date@),
        (r matches Cow::Borrowed(_)) <==> (!needs_cleaning(date@) && trimmed(date@) == date@),
{
    let s = chars_of(date);
    let c = clean_chars(date);
    if !needs_cleaning_chars(&s) {
        proof {
            lemma_cleaning_only_trims(date@);
        }
        if crate::text::same_chars_vec(&c, &s) {
            return Cow::Borrowed(date);
        }
    }
    Cow::Owned(string_of(&c))
}

/// A pattern that occurs nowhere leaves the sequence as it is.
pub proof fn lemma_replaced_nowhere(s: Seq<char>, from: Seq<char>, to: Seq<char>)
    requires
        from.len() > 0,
        forall|i: int| 0 <= i <= s.len() ==> !occurs_at(s, i, from),
    ensures
        replaced(s, from, to) == s,
    decreases s.len(),
{
    if s.len() > 0 {
        assert(!occurs_at(s, 0, from));
        assert forall|i: int| 0 <= i <= s.skip(1).len() implies !occurs_at(s.skip(1), i, from) by {
            if occurs_at(s.skip(1), i, from) {
                assert(s.skip(1).subrange(i, i + from.len()) =~= s.subrange(i + 1, i + 1 + from.len()));
                assert(occurs_at(s, i + 1, from));
            }
        };
        lemma_replaced_nowhere(s.skip(1), from, to);
        assert(seq![s[0]] + s.skip(1) =~= s);
    }
}

/// Does `s` hold a substring that cleaning acts on: an ordinal suffix, a
/// French article, or a Russian genitive month?
pub open spec fn needs_cleaning(s: Seq<char>) -> bool {
    has_phrase(s, "st"@)
        || has_phrase(s, "nd"@)
        || has_phrase(s, "rd"@)
        || has_phrase(s, "th"@)
        || has_phrase(s, "le "@)
        || has_phrase(s, "Le "@)
        || has_phrase(s, "1er"@)
        || has_phrase(s, "марта"@)
        || has_phrase(s, "Марта"@)
        || has_phrase(s, "августа"@)
        || has_phrase(s, "Августа"@)
}

fn needs_cleaning_chars(s: &Vec<char>) -> (r: bool)
    ensures
        r == needs_cleaning(s@),
{
    crate::split::contains_phrase(s, &chars_of("st"))
        || crate::split::contains_phrase(s, &chars_of("nd"))
        || crate::split::contains_phrase(s, &chars_of("rd"))
        || crate::split::contains_phrase(s, &chars_of("th"))
        || crate::split::contains_phrase(s, &chars_of("le "))
        || crate::split::contains_phrase(s, &chars_of("Le "))
        || crate::split::contains_phrase(s, &chars_of("1er"))
        || crate::split::contains_phrase(s, &chars_of("марта"))
        || crate::split::contains_phrase(s, &chars_of("Марта"))
        || crate::split::contains_phrase(s, &chars_of("августа"))
        || crate::split::contains_phrase(s, &chars_of("Августа"))
}

proof fn lemma_absent_after_first(s: Seq<char>, p: Seq<char>)
    requires
        s.len() > 0,
        !has_phrase(s, p),
    ensures
        !has_phrase(s.skip(1), p),
{
    if has_phrase(s.skip(1), p) {
        let i = choose|i: int| occurs_at(s.skip(1), i, p);
        assert(s.skip(1).subrange(i, i + p.len()) =~= s.subrange(i + 1, i + 1 + p.len()));
        assert(occurs_at(s, i + 1, p));
    }
}

proof fn lemma_no_suffix_no_ordinals(s: Seq<char>)
    requires
        !has_phrase(s, "st"@),
        !has_phrase(s, "nd"@),
        !has_phrase(s, "rd"@),
        !has_phrase(s, "th"@),
    ensures
        without_ordinals(s) == s,
    decreases s.len(),
{
    reveal_strlit("st");
    reveal_strlit("nd");
    reveal_strlit("rd");
    reveal_strlit("th");
    if s.len() > 0 {
        if s.len() >= 3 && ordinal_suffix(s[1], s[2]) {
            let t = s.subrange(1, 3);
            assert(t =~= seq![s[1], s[2]]);
            if s[1] == 's' {
                assert(t =~= "st"@);
                assert(occurs_at(s, 1, "st"@));
            } else if s[1] == 'n' {
                assert(t =~= "nd"@);
                assert(occurs_at(s, 1, "nd"@));
            } else if s[1] == 'r' {
                assert(t =~= "rd"@);
                assert(occurs_at(s, 1, "rd"@));
            } else {
                assert(t =~= "th"@);
                assert(occurs_at(s, 1, "th"@));
            }
        }
        lemma_absent_after_first(s, "st"@);
        lemma_absent_after_first(s, "nd"@);
        lemma_absent_after_first(s, "rd"@);
        lemma_absent_after_first(s, "th"@);
        lemma_no_suffix_no_ordinals(s.skip(1));
        assert(seq![s[0]] + s.skip(1) =~= s);
    }
}

proof fn lemma_absent_kept(s: Seq<char>, from: Seq<char>, to: Seq<char>)
    requires
        from.len() > 0,
        !has_phrase(s, from),
    ensures
        replaced(s, from, to) == s,
{
    lemma_replaced_nowhere(s, from, to);
}

/// Without a substring that cleaning acts on, cleaning only trims.
proof fn lemma_cleaning_only_trims(s: Seq<char>)
    requires
        !needs_cleaning(s),
    ensures
        cleaned(s) == trimmed(s),
{
    reveal_strlit("st");
    reveal_strlit("nd");
    reveal_strlit("rd");
    reveal_strlit("th");
    reveal_strlit("le ");
    reveal_strlit("Le ");
    reveal_strlit("1er");
    reveal_strlit("марта");
    reveal_strlit("Марта");
    reveal_strlit("августа");
    reveal_strlit("Августа");
    lemma_no_suffix_no_ordinals(s);
    lemma_absent_kept(s, "le "@, " "@);
    lemma_absent_kept(s, "Le "@, " "@);
    lemma_absent_kept(s, "1er"@, "01"@);
    lemma_absent_kept(s, "марта"@, "март"@);
    lemma_absent_kept(s, "Марта"@, "Март"@);
    lemma_absent_kept(s, "августа"@, "август"@);
    lemma_absent_kept(s, "Августа"@, "Август"@);
}

} // verus!

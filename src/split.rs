//! Splitting of a cleaned date into its components by the delimiter-priority
//! rule.
use vstd::prelude::*;
use crate::normalize::{has_phrase, matches_at, occurs_at};
use crate::text::{chars_of, string_of, white_space};

verus! {

/// The delimiters a date can be split on.
#[derive(Clone, Copy, Debug, PartialEq, Eq, Structural)]
pub enum Delimiter {
    Slash,
    Dash,
    /// The Spanish phrases " de " and " del ".
    Spanish,
    /// A full stop or a white space character.
    DotOrWhiteSpace,
    /// Any white space character.
    WhiteSpace,
}

pub open spec fn starts_with(s: Seq<char>, p: Seq<char>) -> bool {
    p.len() <= s.len() && s.take(p.len() as int) == p
}

/// The length of the delimiter at the start of `s`; 0 when there is none.
pub open spec fn delimiter_len(s: Seq<char>, d: Delimiter) -> int {
    if s.len() == 0 {
        0
    } else {
        match d {
            Delimiter::Slash => if s[0] == '/' { 1 } else { 0 },
            Delimiter::Dash => if s[0] == '-' { 1 } else { 0 },
            Delimiter::DotOrWhiteSpace => if s[0] == '.' || white_space(s[0]) { 1 } else { 0 },
            Delimiter::WhiteSpace => if white_space(s[0]) { 1 } else { 0 },
            Delimiter::Spanish => if starts_with(s, seq![' ', 'd', 'e', ' ']) {
                4
            } else if starts_with(s, seq![' ', 'd', 'e', 'l', ' ']) {
                5
            } else {
                0
            },
        }
    }
}

/// The pieces of `s` between delimiters, scanned from the left, empty pieces
/// included (as `str::split` gives them).
pub open spec fn pieces(s: Seq<char>, d: Delimiter) -> Seq<Seq<char>>
    decreases s.len(),
{
    if s.len() == 0 {
        seq![Seq::<char>::empty()]
    } else if delimiter_len(s, d) > 0 {
        seq![Seq::<char>::empty()] + pieces(s.skip(delimiter_len(s, d)), d)
    } else {
        let rest = pieces(s.skip(1), d);
        rest.update(0, seq![s[0]] + rest[0])
    }
}

/// The non-empty pieces, in order.
pub open spec fn non_empty(ps: Seq<Seq<char>>) -> Seq<Seq<char>>
    decreases ps.len(),
{
    if ps.len() == 0 {
        ps
    } else if ps.last().len() > 0 {
        non_empty(ps.drop_last()).push(ps.last())
    } else {
        non_empty(ps.drop_last())
    }
}

pub open spec fn char_views(v: Seq<Vec<char>>) -> Seq<Seq<char>> {
    v.map_values(|p: Vec<char>| p@)
}

pub open spec fn string_views(v: Seq<String>) -> Seq<Seq<char>> {
    v.map_values(|p: String| p@)
}

proof fn lemma_pieces_nonempty(s: Seq<char>, d: Delimiter)
    ensures
        pieces(s, d).len() >= 1,
    decreases s.len(),
{
    if s.len() > 0 {
        if delimiter_len(s, d) > 0 {
            lemma_pieces_nonempty(s.skip(delimiter_len(s, d)), d);
        } else {
            lemma_pieces_nonempty(s.skip(1), d);
        }
    }
}

/// `done`, then `cur` joined to the first of `rest`, then the others of `rest`.
spec fn assembled(done: Seq<Seq<char>>, cur: Seq<char>, rest: Seq<Seq<char>>) -> Seq<Seq<char>> {
    done + seq![cur + rest[0]] + rest.skip(1)
}

fn delimiter_at(s: &Vec<char>, i: usize, d: Delimiter) -> (k: usize)
    requires
        i < s@.len(),
    ensures
        k == delimiter_len(s@.skip(i as int), d),
        1 <= k ==> i + k <= s@.len(),
{
    let ghost rest = s@.skip(i as int);
    let c = s[i];
    match d {
        Delimiter::Slash => if c == '/' { 1 } else { 0 },
        Delimiter::Dash => if c == '-' { 1 } else { 0 },
        Delimiter::DotOrWhiteSpace => if c == '.' || crate::text::is_white_space(c) { 1 } else { 0 },
        Delimiter::WhiteSpace => if crate::text::is_white_space(c) { 1 } else { 0 },
        Delimiter::Spanish => {
            let n = s.len() - i;
            if n >= 4 && c == ' ' && s[i + 1] == 'd' && s[i + 2] == 'e' && s[i + 3] == ' ' {
                assert(rest.take(4) =~= seq![' ', 'd', 'e', ' ']);
                4
            } else if n >= 5 && c == ' ' && s[i + 1] == 'd' && s[i + 2] == 'e' && s[i + 3] == 'l'
                && s[i + 4] == ' ' {
                assert(!starts_with(rest, seq![' ', 'd', 'e', ' '])) by {
                    if starts_with(rest, seq![' ', 'd', 'e', ' ']) {
                        assert(rest.take(4)[3] == ' ');
                    }
                };
                assert(rest.take(5) =~= seq![' ', 'd', 'e', 'l', ' ']);
                5
            } else {
                assert(!starts_with(rest, seq![' ', 'd', 'e', ' '])) by {
                    if starts_with(rest, seq![' ', 'd', 'e', ' ']) {
                        assert(rest.take(4)[1] == 'd' && rest.take(4)[2] == 'e' && rest.take(4)[3]
                            == ' ');
                    }
                };
                assert(!starts_with(rest, seq![' ', 'd', 'e', 'l', ' '])) by {
                    if starts_with(rest, seq![' ', 'd', 'e', 'l', ' ']) {
                        assert(rest.take(5)[1] == 'd' && rest.take(5)[2] == 'e' && rest.take(5)[3]
                            == 'l' && rest.take(5)[4] == ' ');
                    }
                };
                0
            }
        },
    }
}

/// The pieces of `s` between delimiters `d`, empty pieces included.
pub fn split_chars(s: &Vec<char>, d: Delimiter) -> (r: Vec<Vec<char>>)
    ensures
        char_views(r@) == pieces(s@, d),
{
    let mut done: Vec<Vec<char>> = Vec::new();
    let mut cur: Vec<char> = Vec::new();
    let mut i: usize = 0;
    proof {
        lemma_pieces_nonempty(s@, d);
        assert(s@.skip(0) =~= s@);
        assert(assembled(char_views(done@), cur@, pieces(s@, d)) =~= pieces(s@, d));
    }
    while i < s.len()
        invariant
            i <= s@.len(),
            pieces(s@, d) == assembled(char_views(done@), cur@, pieces(s@.skip(i as int), d)),
        decreases s.len() - i,
    {
        let ghost rest = s@.skip(i as int);
        let k = delimiter_at(s, i, d);
        if k > 0 {
            let ghost tail = pieces(rest.skip(k as int), d);
            proof {
                lemma_pieces_nonempty(rest.skip(k as int), d);
                assert(rest.skip(k as int) =~= s@.skip(i + k));
            }
            let ghost done_before = done@;
            let ghost piece = cur@;
            done.push(cur);
            cur = Vec::new();
            i = i + k;
            assert(char_views(done@) =~= char_views(done_before).push(piece));
            assert(assembled(char_views(done@), cur@, tail) =~= assembled(
                char_views(done_before),
                piece,
                seq![Seq::<char>::empty()] + tail,
            ));
        } else {
            let ghost tail = pieces(rest.skip(1), d);
            proof {
                lemma_pieces_nonempty(rest.skip(1), d);
                assert(rest.skip(1) =~= s@.skip(i + 1));
            }
            let ghost before = cur@;
            cur.push(s[i]);
            i = i + 1;
            assert(cur@ + tail[0] =~= before + (seq![rest[0]] + tail[0]));
            assert(tail.update(0, seq![rest[0]] + tail[0]).skip(1) =~= tail.skip(1));
            assert(assembled(char_views(done@), cur@, tail) =~= assembled(
                char_views(done@),
                before,
                tail.update(0, seq![rest[0]] + tail[0]),
            ));
        }
    }
    assert(s@.skip(i as int) =~= Seq::<char>::empty());
    let ghost done_before = done@;
    let ghost last = cur@;
    done.push(cur);
    assert(char_views(done@) =~= char_views(done_before).push(last));
    assert(char_views(done@) =~= pieces(s@, d));
    done
}


pub open spec fn has_white_space(s: Seq<char>) -> bool {
    exists|i: int| 0 <= i < s.len() && white_space(#[trigger] s[i])
}

fn contains_white_space(s: &Vec<char>) -> (r: bool)
    ensures
        r == has_white_space(s@),
{
    let mut i: usize = 0;
    while i < s.len()
        invariant
            i <= s@.len(),
            forall|j: int| 0 <= j < i ==> !white_space(#[trigger] s@[j]),
        decreases s.len() - i,
    {
        if crate::text::is_white_space(s[i]) {
            return true;
        }
        i = i + 1;
    }
    false
}

/// The components of a cleaned date, by the first delimiter present: '/',
/// then '-', then the Spanish " de " / " del " (empty pieces dropped), then
/// '.' together with white space (empty pieces dropped), then white space; a date with
/// none of them is a single component.
pub open spec fn separated(s: Seq<char>) -> Seq<Seq<char>> {
    if s.contains('/') {
        pieces(s, Delimiter::Slash)
    } else if s.contains('-') {
        pieces(s, Delimiter::Dash)
    } else if has_phrase(s, seq![' ', 'd', 'e', ' ']) || has_phrase(s, seq![' ', 'd', 'e', 'l', ' ']) {
        non_empty(pieces(s, Delimiter::Spanish))
    } else if s.contains('.') {
        non_empty(pieces(s, Delimiter::DotOrWhiteSpace))
    } else if has_white_space(s) {
        pieces(s, Delimiter::WhiteSpace)
    } else {
        seq![s]
    }
}

fn contains_char(s: &Vec<char>, c: char) -> (r: bool)
    ensures
        r == s@.contains(c),
{
    let mut i: usize = 0;
    while i < s.len()
        invariant
            i <= s@.len(),
            forall|j: int| 0 <= j < i ==> s@[j] != c,
        decreases s.len() - i,
    {
        if s[i] == c {
            assert(s@[i as int] == c);
            return true;
        }
        i = i + 1;
    }
    false
}

pub(crate) fn contains_phrase(s: &Vec<char>, p: &Vec<char>) -> (r: bool)
    ensures
        r == has_phrase(s@, p@),
{
    let mut i: usize = 0;
    while i < s.len()
        invariant
            i <= s@.len(),
            forall|j: int| 0 <= j < i ==> !occurs_at(s@, j, p@),
        decreases s.len() - i,
    {
        if matches_at(s, i, p) {
            return true;
        }
        i = i + 1;
    }
    matches_at(s, i, p)
}

/// The non-empty pieces of `ps`, in order.
pub(crate) fn keep_non_empty(ps: Vec<Vec<char>>) -> (r: Vec<Vec<char>>)
    ensures
        char_views(r@) == non_empty(char_views(ps@)),
{
    let mut r: Vec<Vec<char>> = Vec::new();
    let mut i: usize = 0;
    assert(char_views(ps@).take(0) =~= Seq::<Seq<char>>::empty());
    while i < ps.len()
        invariant
            i <= ps@.len(),
            char_views(r@) == non_empty(char_views(ps@).take(i as int)),
        decreases ps.len() - i,
    {
        assert(char_views(ps@).take(i + 1).drop_last() =~= char_views(ps@).take(i as int));
        let ghost before = r@;
        if ps[i].len() > 0 {
            r.push(ps[i].clone());
            assert(char_views(r@) =~= char_views(before).push(ps@[i as int]@));
        }
        i = i + 1;
    }
    assert(char_views(ps@).take(i as int) =~= char_views(ps@));
    r
}

/// The components of a cleaned date, as characters.
pub fn separate_chars(s: &Vec<char>) -> (r: Vec<Vec<char>>)
    ensures
        char_views(r@) == separated(s@),
{
    if contains_char(s, '/') {
        split_chars(s, Delimiter::Slash)
    } else if contains_char(s, '-') {
        split_chars(s, Delimiter::Dash)
    } else if contains_phrase(s, &vec![' ', 'd', 'e', ' ']) || contains_phrase(
        s,
        &vec![' ', 'd', 'e', 'l', ' '],
    ) {
        keep_non_empty(split_chars(s, Delimiter::Spanish))
    } else if contains_char(s, '.') {
        keep_non_empty(split_chars(s, Delimiter::DotOrWhiteSpace))
    } else if contains_white_space(s) {
        split_chars(s, Delimiter::WhiteSpace)
    } else {
        let mut r: Vec<Vec<char>> = Vec::new();
        r.push(s.clone());
        assert(char_views(r@) =~= seq![s@]);
        r
    }
}

/// Strings of the character vectors, in order.
pub fn strings_of(v: &Vec<Vec<char>>) -> (r: Vec<String>)
    ensures
        string_views(r@) == char_views(v@),
{
    let mut r: Vec<String> = Vec::new();
    let mut i: usize = 0;
    while i < v.len()
        invariant
            i <= v@.len(),
            string_views(r@) == char_views(v@).take(i as int),
        decreases v.len() - i,
    {
        let ghost before = r@;
        let t = string_of(&v[i]);
        r.push(t);
        assert(string_views(r@) =~= string_views(before).push(v@[i as int]@));
        i = i + 1;
        assert(string_views(r@) =~= char_views(v@).take(i as int));
    }
    assert(char_views(v@).take(i as int) =~= char_views(v@));
    r
}

/// Splits a cleaned date into its components: on '/', else on '-', else on
/// the Spanish " de " / " del ", else on '.' and white space, else on white
/// space; a date
/// with none of them is one component.
pub fn separate_date_optimized(date: &str) -> (r: Vec<String>)
    ensures
        string_views(r@) == separated(date@),
{
    strings_of(&separate_chars(&chars_of(date)))
}

} // verus!

//! Recognition of the fixed-width forms `YYYY-MM-DD`, `DD/MM/YYYY`,
//! `MM/DD/YYYY` and their two-digit-year variants, without tokenising.
use vstd::prelude::*;
use crate::calendar::decimal;
use crate::text::{all_digits, ascii_digit, chars_of, same_chars};

verus! {

/// The value of the digits `s[lo..hi]`, when they are all digits.
pub open spec fn field(s: Seq<char>, lo: int, hi: int) -> Option<int> {
    if all_digits(s.subrange(lo, hi)) {
        Some(decimal(s.subrange(lo, hi)))
    } else {
        None
    }
}

/// How a slash-delimited date with parts `first` and `second` is read: in the
/// order the format names, or, for any other format, only when one part
/// exceeds 12 and so cannot be the month.
pub open spec fn slash_date(first: int, second: int, year: int, format: Seq<char>) -> Option<
    (u8, u8, u16),
> {
    if format == "mdy"@ {
        if 1 <= first <= 12 && 1 <= second <= 31 {
            Some((second as u8, first as u8, year as u16))
        } else {
            None
        }
    } else if format == "dmy"@ {
        if 1 <= second <= 12 && 1 <= first <= 31 {
            Some((first as u8, second as u8, year as u16))
        } else {
            None
        }
    } else if first > 12 && 1 <= second <= 12 {
        Some((first as u8, second as u8, year as u16))
    } else if second > 12 && 1 <= first <= 12 {
        Some((second as u8, first as u8, year as u16))
    } else {
        None
    }
}

/// The century a two-digit year gets on the fast path: 30 and below are in
/// the 2000s, the rest in the 1900s.
pub open spec fn short_year(v: int) -> int {
    if v <= 30 {
        2000 + v
    } else {
        1900 + v
    }
}

/// The (day, month, year) that the fast path reads from `s`, if any.
pub open spec fn fast_path(s: Seq<char>, format: Seq<char>) -> Option<(u8, u8, u16)> {
    if s.len() == 10 && s[4] == '-' && s[7] == '-' {
        match (field(s, 0, 4), field(s, 5, 7), field(s, 8, 10)) {
            (Some(y), Some(m), Some(d)) => if 1 <= m <= 12 && 1 <= d <= 31 {
                Some((d as u8, m as u8, y as u16))
            } else {
                None
            },
            _ => None,
        }
    } else if s.len() == 10 && s[2] == '/' && s[5] == '/' {
        match (field(s, 0, 2), field(s, 3, 5), field(s, 6, 10)) {
            (Some(a), Some(b), Some(y)) => slash_date(a, b, y, format),
            _ => None,
        }
    } else if s.len() == 8 && s[2] == '/' && s[5] == '/' {
        match (field(s, 0, 2), field(s, 3, 5), field(s, 6, 8)) {
            (Some(a), Some(b), Some(y)) => slash_date(a, b, short_year(y), format),
            _ => None,
        }
    } else {
        None
    }
}

/// The value of the digits `s[lo..hi]` (at most four), when they are all digits.
fn field_value(s: &Vec<char>, lo: usize, hi: usize) -> (r: Option<u32>)
    requires
        lo <= hi <= s@.len(),
        hi - lo <= 4,
    ensures
        r matches Some(v) ==> field(s@, lo as int, hi as int) == Some(v as int),
        r is None ==> field(s@, lo as int, hi as int) is None,
        r matches Some(v) ==> v <= 9999,
        r matches Some(v) ==> (hi - lo <= 2 ==> v <= 99),
{
    let mut v: u32 = 0;
    let mut k: usize = lo;
    while k < hi
        invariant
            lo <= k <= hi <= s@.len(),
            hi - lo <= 4,
            all_digits(s@.subrange(lo as int, k as int)),
            v == decimal(s@.subrange(lo as int, k as int)),
            k - lo <= 1 ==> v <= 9,
            k - lo <= 2 ==> v <= 99,
            k - lo <= 3 ==> v <= 999,
            v <= 9999,
        decreases hi - k,
    {
        let c = s[k];
        if !('0' <= c && c <= '9') {
            assert(s@.subrange(lo as int, hi as int)[k - lo] == c);
            assert(!ascii_digit(c));
            return None;
        }
        assert(s@.subrange(lo as int, k + 1).drop_last() =~= s@.subrange(lo as int, k as int));
        v = v * 10 + (c as u32 - '0' as u32);
        k = k + 1;
        assert(all_digits(s@.subrange(lo as int, k as int))) by {
            assert forall|j: int| 0 <= j < k - lo implies ascii_digit(
                #[trigger] s@.subrange(lo as int, k as int)[j],
            ) by {
                if j < k - 1 - lo {
                    assert(s@.subrange(lo as int, k as int)[j] == s@.subrange(
                        lo as int,
                        k - 1,
                    )[j]);
                }
            }
        };
    }
    Some(v)
}

fn slash_order(first: u32, second: u32, year: u32, mdy: bool, dmy: bool) -> (r: Option<
    (u8, u8, u16),
>)
    requires
        first <= 99,
        second <= 99,
        year <= 9999,
    ensures
        forall|f: Seq<char>|
            ((f == "mdy"@) == mdy && (f == "dmy"@) == dmy) ==> #[trigger] slash_date(
                first as int,
                second as int,
                year as int,
                f,
            ) == r,
{
    if mdy {
        if first >= 1 && first <= 12 && second >= 1 && second <= 31 {
            return Some((second as u8, first as u8, year as u16));
        }
    } else if dmy {
        if second >= 1 && second <= 12 && first >= 1 && first <= 31 {
            return Some((first as u8, second as u8, year as u16));
        }
    } else if first > 12 && second >= 1 && second <= 12 {
        return Some((first as u8, second as u8, year as u16));
    } else if second > 12 && first >= 1 && first <= 12 {
        return Some((second as u8, first as u8, year as u16));
    }
    None
}

/// Reads a fixed-width date directly: ISO `YYYY-MM-DD` whatever the format;
/// `DD/MM/YYYY` or `MM/DD/YYYY` (also with a two-digit year) in the order the
/// format names, or without a known format only where one part exceeds 12.
/// The result is (day, month, year), not yet checked against month lengths.
pub fn fast_path_parse_date(date: &str, format: &str) -> (r: Option<(u8, u8, u16)>)
    ensures
        r == fast_path(date@, format@),
{
    let s = chars_of(date);
    let f = chars_of(format);
    let mdy = same_chars(&f, "mdy");
    let dmy = same_chars(&f, "dmy");
    if s.len() == 10 && s[4] == '-' && s[7] == '-' {
        match (field_value(&s, 0, 4), field_value(&s, 5, 7), field_value(&s, 8, 10)) {
            (Some(y), Some(m), Some(d)) => {
                if m >= 1 && m <= 12 && d >= 1 && d <= 31 {
                    Some((d as u8, m as u8, y as u16))
                } else {
                    None
                }
            },
            _ => None,
        }
    } else if s.len() == 10 && s[2] == '/' && s[5] == '/' {
        match (field_value(&s, 0, 2), field_value(&s, 3, 5), field_value(&s, 6, 10)) {
            (Some(a), Some(b), Some(y)) => slash_order(a, b, y, mdy, dmy),
            _ => None,
        }
    } else if s.len() == 8 && s[2] == '/' && s[5] == '/' {
        match (field_value(&s, 0, 2), field_value(&s, 3, 5), field_value(&s, 6, 8)) {
            (Some(a), Some(b), Some(short)) => {
                let year = if short <= 30 {
                    2000 + short
                } else {
                    1900 + short
                };
                slash_order(a, b, year, mdy, dmy)
            },
            _ => None,
        }
    } else {
        None
    }
}

} // verus!

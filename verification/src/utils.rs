//! The two utilities every fetcher leans on: the date normalizer and the
//! URL rewriter.

use vstd::prelude::*;

use crate::errors::AppError;
use crate::models::Date;
use crate::models::spec_days_in_month;
use crate::text::chars_of;
use crate::text::find_char;
use crate::text::is_uppercase_char;
use crate::text::is_whitespace_char;
use crate::text::join_strings;
use crate::text::spec_join;
use crate::text::lower_of;
use crate::text::lowercase_str;
use crate::text::str_eq;
use crate::text::uppercase_char;
use crate::text::whitespace_char;
use crate::text::find_char_in;
use crate::text::replace_chars;
use crate::text::spec_replace;
use crate::text::spec_trim;
use crate::text::string_from_chars;
use crate::text::sub_chars;
use crate::text::trim_chars;

verus! {

/// What `chrono::NaiveDate::parse_from_str` returns for a string and a
/// format: a function of the two arguments alone, either `(year, month,
/// day)` or the text of chrono's parse error.
pub uninterp spec fn chrono_parse(s: Seq<char>, fmt: Seq<char>) -> Result<(i32, u8, u8), Seq<char>>;

/// Relies on chrono::NaiveDate::parse_from_str: the result depends on the
/// string and the format alone; a parsed date is a real proleptic-Gregorian
/// calendar date, so its month is 1..=12 and its day fits the month.
#[verifier::external_body]
pub(crate) fn parse_naive_date(s: &str, fmt: &str) -> (r: Result<(i32, u8, u8), String>)
    ensures
        match r {
            Ok(d) => chrono_parse(s@, fmt@) == Ok::<(i32, u8, u8), Seq<char>>(d) && 1 <= d.1
                <= 12 && 1 <= d.2 <= spec_days_in_month(d.0 as int, d.1 as int),
            Err(m) => chrono_parse(s@, fmt@) == Err::<(i32, u8, u8), Seq<char>>(m@),
        },
{
    match chrono::NaiveDate::parse_from_str(s, fmt) {
        Ok(d) => Ok(
            (chrono::Datelike::year(&d), chrono::Datelike::month(&d) as u8, chrono::Datelike::day(
                &d,
            ) as u8),
        ),
        Err(e) => Err(e.to_string()),
    }
}

/// The calendar date a parsed triple names.
pub open spec fn spec_date_from(t: (i32, u8, u8)) -> Date {
    Date { year: t.0, month: t.1, day: t.2 }
}

/// The ordered fallback chain of the date normalizer: the first candidate
/// format that chrono accepts decides the date.
pub open spec fn spec_parse_rss_date(s: Seq<char>) -> Option<Date> {
    if chrono_parse(s, "%a, %d %b %Y %H:%M:%S %Z"@) is Ok {
        Some(spec_date_from(chrono_parse(s, "%a, %d %b %Y %H:%M:%S %Z"@)->Ok_0))
    } else if chrono_parse(s, "%a, %d %b %Y %H:%M:%S GMT"@) is Ok {
        Some(spec_date_from(chrono_parse(s, "%a, %d %b %Y %H:%M:%S GMT"@)->Ok_0))
    } else if chrono_parse(s, "%Y-%m-%dT%H:%M:%S%:z"@) is Ok {
        Some(spec_date_from(chrono_parse(s, "%Y-%m-%dT%H:%M:%S%:z"@)->Ok_0))
    } else if chrono_parse(s, "%Y-%m-%d"@) is Ok {
        Some(spec_date_from(chrono_parse(s, "%Y-%m-%d"@)->Ok_0))
    } else if chrono_parse(s, "%Y-%m-%dT%H:%M:%SZ"@) is Ok {
        Some(spec_date_from(chrono_parse(s, "%Y-%m-%dT%H:%M:%SZ"@)->Ok_0))
    } else {
        None
    }
}

/// Normalize a date string through the ordered candidate-format chain;
/// time of day and zone are discarded. When no candidate matches, the
/// date-parse error names the original string.
pub fn parse_rss_date(date_str: &str) -> (r: Result<Date, AppError>)
    ensures
        r matches Ok(d) ==> spec_parse_rss_date(date_str@) == Some(d) && d.wf(),
        r matches Err(e) ==> spec_parse_rss_date(date_str@) is None && (e matches
            AppError::DateParseError(m) && m@ == "Unable to parse date: "@ + date_str@),
{
    if let Ok(d) = parse_naive_date(date_str, "%a, %d %b %Y %H:%M:%S %Z") {
        return Ok(Date { year: d.0, month: d.1, day: d.2 });
    }
    if let Ok(d) = parse_naive_date(date_str, "%a, %d %b %Y %H:%M:%S GMT") {
        return Ok(Date { year: d.0, month: d.1, day: d.2 });
    }
    if let Ok(d) = parse_naive_date(date_str, "%Y-%m-%dT%H:%M:%S%:z") {
        return Ok(Date { year: d.0, month: d.1, day: d.2 });
    }
    if let Ok(d) = parse_naive_date(date_str, "%Y-%m-%d") {
        return Ok(Date { year: d.0, month: d.1, day: d.2 });
    }
    if let Ok(d) = parse_naive_date(date_str, "%Y-%m-%dT%H:%M:%SZ") {
        return Ok(Date { year: d.0, month: d.1, day: d.2 });
    }
    Err(AppError::DateParseError(String::from_str("Unable to parse date: ").concat(date_str)))
}

/// The ASCII lower-case counterpart of a character; anything but 'A'..='Z'
/// is unchanged.
pub open spec fn spec_ascii_lower(c: char) -> char {
    match c {
        'A' => 'a',
        'B' => 'b',
        'C' => 'c',
        'D' => 'd',
        'E' => 'e',
        'F' => 'f',
        'G' => 'g',
        'H' => 'h',
        'I' => 'i',
        'J' => 'j',
        'K' => 'k',
        'L' => 'l',
        'M' => 'm',
        'N' => 'n',
        'O' => 'o',
        'P' => 'p',
        'Q' => 'q',
        'R' => 'r',
        'S' => 's',
        'T' => 't',
        'U' => 'u',
        'V' => 'v',
        'W' => 'w',
        'X' => 'x',
        'Y' => 'y',
        'Z' => 'z',
        _ => c,
    }
}

/// The ASCII upper-case counterpart of a character; anything but 'a'..='z'
/// is unchanged.
pub open spec fn spec_ascii_upper(c: char) -> char {
    match c {
        'a' => 'A',
        'b' => 'B',
        'c' => 'C',
        'd' => 'D',
        'e' => 'E',
        'f' => 'F',
        'g' => 'G',
        'h' => 'H',
        'i' => 'I',
        'j' => 'J',
        'k' => 'K',
        'l' => 'L',
        'm' => 'M',
        'n' => 'N',
        'o' => 'O',
        'p' => 'P',
        'q' => 'Q',
        'r' => 'R',
        's' => 'S',
        't' => 'T',
        'u' => 'U',
        'v' => 'V',
        'w' => 'W',
        'x' => 'X',
        'y' => 'Y',
        'z' => 'Z',
        _ => c,
    }
}

#[verifier::when_used_as_spec(spec_ascii_lower)]
fn ascii_lower_char(c: char) -> (r: char)
    ensures
        r == spec_ascii_lower(c),
{
    match c {
        'A' => 'a',
        'B' => 'b',
        'C' => 'c',
        'D' => 'd',
        'E' => 'e',
        'F' => 'f',
        'G' => 'g',
        'H' => 'h',
        'I' => 'i',
        'J' => 'j',
        'K' => 'k',
        'L' => 'l',
        'M' => 'm',
        'N' => 'n',
        'O' => 'o',
        'P' => 'p',
        'Q' => 'q',
        'R' => 'r',
        'S' => 's',
        'T' => 't',
        'U' => 'u',
        'V' => 'v',
        'W' => 'w',
        'X' => 'x',
        'Y' => 'y',
        'Z' => 'z',
        _ => c,
    }
}

#[verifier::when_used_as_spec(spec_ascii_upper)]
fn ascii_upper_char(c: char) -> (r: char)
    ensures
        r == spec_ascii_upper(c),
{
    match c {
        'a' => 'A',
        'b' => 'B',
        'c' => 'C',
        'd' => 'D',
        'e' => 'E',
        'f' => 'F',
        'g' => 'G',
        'h' => 'H',
        'i' => 'I',
        'j' => 'J',
        'k' => 'K',
        'l' => 'L',
        'm' => 'M',
        'n' => 'N',
        'o' => 'O',
        'p' => 'P',
        'q' => 'Q',
        'r' => 'R',
        's' => 'S',
        't' => 'T',
        'u' => 'U',
        'v' => 'V',
        'w' => 'W',
        'x' => 'X',
        'y' => 'Y',
        'z' => 'Z',
        _ => c,
    }
}

/// The character is in the ASCII range.
pub open spec fn spec_is_ascii_char(c: char) -> bool {
    (c as u32) < 128
}

/// The character is an ASCII decimal digit.
pub open spec fn spec_is_digit_char(c: char) -> bool {
    48 <= (c as u32) <= 57
}

/// The number of bytes of the character's UTF-8 encoding.
pub open spec fn spec_char_bytes(c: char) -> int {
    if (c as u32) < 0x80 {
        1
    } else if (c as u32) < 0x800 {
        2
    } else if (c as u32) < 0x10000 {
        3
    } else {
        4
    }
}

/// The length of the leading run of non-whitespace characters.
pub open spec fn spec_word_end(s: Seq<char>) -> int
    decreases s.len(),
{
    if s.len() == 0 {
        0
    } else if whitespace_char(s[0]) {
        0
    } else {
        1 + spec_word_end(s.skip(1))
    }
}

/// `spec_word_end` stays within the sequence and is positive on a
/// non-whitespace head.
pub proof fn lemma_word_end_bounds(s: Seq<char>)
    ensures
        0 <= spec_word_end(s) <= s.len(),
        s.len() > 0 && !whitespace_char(s[0]) ==> spec_word_end(s) >= 1,
    decreases s.len(),
{
    if s.len() > 0 && !whitespace_char(s[0]) {
        lemma_word_end_bounds(s.skip(1));
    }
}

/// The word boundary is the first whitespace position.
pub proof fn lemma_word_end_first(s: Seq<char>)
    ensures
        forall|j: int| 0 <= j < spec_word_end(s) ==> !whitespace_char(#[trigger] s[j]),
        spec_word_end(s) < s.len() ==> whitespace_char(s[spec_word_end(s)]),
    decreases s.len(),
{
    lemma_word_end_bounds(s);
    if s.len() > 0 && !whitespace_char(s[0]) {
        lemma_word_end_first(s.skip(1));
        lemma_word_end_bounds(s.skip(1));
        assert forall|j: int| 0 <= j < spec_word_end(s) implies !whitespace_char(
            #[trigger] s[j],
        ) by {
            if j > 0 {
                assert(s.skip(1)[j - 1] == s[j]);
            }
        }
        if spec_word_end(s) < s.len() {
            assert(s.skip(1)[spec_word_end(s) - 1] == s[spec_word_end(s)]);
        }
    }
}

/// The whitespace-separated words of `s`, in order, as
/// `str::split_whitespace` yields them.
pub open spec fn spec_words(s: Seq<char>) -> Seq<Seq<char>>
    decreases s.len(),
    via spec_words_decreases
{
    if s.len() == 0 {
        seq![]
    } else if whitespace_char(s[0]) {
        spec_words(s.skip(1))
    } else {
        seq![s.take(spec_word_end(s))] + spec_words(s.skip(spec_word_end(s)))
    }
}

#[via_fn]
proof fn spec_words_decreases(s: Seq<char>) {
    lemma_word_end_bounds(s);
}

/// Split `v` into its whitespace-separated words.
fn split_words(v: &Vec<char>) -> (r: Vec<Vec<char>>)
    ensures
        r@.map_values(|w: Vec<char>| w@) == spec_words(v@),
{
    let n = v.len();
    let mut words: Vec<Vec<char>> = Vec::new();
    let mut i: usize = 0;
    proof {
        assert(v@.skip(0) =~= v@);
        assert(words@.map_values(|w: Vec<char>| w@) =~= Seq::<Seq<char>>::empty());
        assert(Seq::<Seq<char>>::empty() + spec_words(v@) =~= spec_words(v@));
    }
    while i < n
        invariant
            i <= n,
            n == v@.len(),
            spec_words(v@) == words@.map_values(|w: Vec<char>| w@) + spec_words(
                v@.skip(i as int),
            ),
        decreases n - i,
    {
        let ghost rest = v@.skip(i as int);
        proof {
            assert(rest[0] == v@[i as int]);
        }
        if is_whitespace_char(v[i]) {
            proof {
                assert(rest.skip(1) =~= v@.skip(i + 1));
            }
            i = i + 1;
        } else {
            // scan to the end of the word
            let mut j: usize = i + 1;
            while j < n && !is_whitespace_char(v[j])
                invariant
                    i < j <= n,
                    n == v@.len(),
                    forall|k: int| i <= k < j ==> !whitespace_char(#[trigger] v@[k]),
                decreases n - j,
            {
                j = j + 1;
            }
            proof {
                lemma_word_end_first(rest);
                lemma_word_end_bounds(rest);
                assert forall|k: int| 0 <= k < j - i implies !whitespace_char(
                    #[trigger] rest[k],
                ) by {
                    assert(rest[k] == v@[i + k]);
                }
                if j < n {
                    assert(rest[j - i] == v@[j as int]);
                }
                // the scan stopped exactly at the word boundary
                if spec_word_end(rest) < j - i {
                    assert(whitespace_char(rest[spec_word_end(rest)]));
                    assert(false);
                }
                if spec_word_end(rest) > j - i {
                    assert(!whitespace_char(rest[(j - i) as int]));
                    assert(j < n);
                    assert(false);
                }
                assert(spec_word_end(rest) == j - i);
            }
            let word = sub_chars(v, i, j);
            proof {
                assert(word@ =~= rest.take(j - i as int));
            }
            let ghost before = words@.map_values(|w: Vec<char>| w@);
            words.push(word);
            proof {
                assert(words@.map_values(|w: Vec<char>| w@) =~= before.push(rest.take(
                    j - i as int,
                )));
                assert(rest.skip(j - i as int) =~= v@.skip(j as int));
                assert(before + (seq![rest.take(j - i as int)] + spec_words(v@.skip(j as int)))
                    =~= before.push(rest.take(j - i as int)) + spec_words(v@.skip(j as int)));
            }
            i = j;
        }
    }
    proof {
        assert(v@.skip(n as int) =~= Seq::<char>::empty());
        assert(words@.map_values(|w: Vec<char>| w@) + Seq::<Seq<char>>::empty()
            =~= words@.map_values(|w: Vec<char>| w@));
    }
    words
}

/// The UTF-8 byte length of a word.
pub open spec fn spec_word_bytes(w: Seq<char>) -> int
    decreases w.len(),
{
    if w.len() == 0 {
        0
    } else {
        spec_char_bytes(w[0]) + spec_word_bytes(w.skip(1))
    }
}

/// Whether the word's UTF-8 byte length exceeds `k`.
fn word_bytes_exceed(w: &Vec<char>, k: usize) -> (r: bool)
    requires
        k <= 8,
    ensures
        r == (spec_word_bytes(w@) > k),
{
    let n = w.len();
    let mut acc: usize = 0;
    let mut i: usize = 0;
    proof {
        assert(w@.skip(0) =~= w@);
    }
    while i < n
        invariant
            i <= n,
            n == w@.len(),
            k <= 8,
            acc <= k,
            spec_word_bytes(w@) == acc + spec_word_bytes(w@.skip(i as int)),
        decreases n - i,
    {
        let c = w[i];
        let u = c as u32;
        let b: usize = if u < 0x80 {
            1
        } else if u < 0x800 {
            2
        } else if u < 0x10000 {
            3
        } else {
            4
        };
        proof {
            assert(w@.skip(i as int)[0] == w@[i as int]);
            assert(w@.skip(i as int).skip(1) =~= w@.skip(i + 1));
            lemma_word_bytes_nonneg(w@.skip(i + 1));
        }
        if acc + b > k {
            return true;
        }
        acc = acc + b;
        i = i + 1;
    }
    proof {
        assert(w@.skip(n as int) =~= Seq::<char>::empty());
    }
    false
}

/// A word's byte length is never negative.
pub proof fn lemma_word_bytes_nonneg(w: Seq<char>)
    ensures
        spec_word_bytes(w) >= 0,
    decreases w.len(),
{
    if w.len() > 0 {
        lemma_word_bytes_nonneg(w.skip(1));
    }
}

/// The number of upper-case characters of the word.
pub open spec fn spec_count_upper(w: Seq<char>) -> int
    decreases w.len(),
{
    if w.len() == 0 {
        0
    } else {
        (if uppercase_char(w[0]) {
            1int
        } else {
            0int
        }) + spec_count_upper(w.skip(1))
    }
}

/// The number of ASCII decimal digits of the word.
pub open spec fn spec_count_digit(w: Seq<char>) -> int
    decreases w.len(),
{
    if w.len() == 0 {
        0
    } else {
        (if spec_is_digit_char(w[0]) {
            1int
        } else {
            0int
        }) + spec_count_digit(w.skip(1))
    }
}

/// Every character of the word is upper-case.
pub open spec fn spec_all_upper(w: Seq<char>) -> bool {
    forall|i: int| 0 <= i < w.len() ==> uppercase_char(#[trigger] w[i])
}

fn count_upper(w: &Vec<char>) -> (r: usize)
    ensures
        r == spec_count_upper(w@),
{
    let n = w.len();
    let mut acc: usize = 0;
    let mut i: usize = 0;
    proof {
        assert(w@.skip(0) =~= w@);
        lemma_count_upper_bound(w@);
    }
    while i < n
        invariant
            i <= n,
            n == w@.len(),
            acc <= i,
            spec_count_upper(w@) == acc + spec_count_upper(w@.skip(i as int)),
        decreases n - i,
    {
        proof {
            assert(w@.skip(i as int)[0] == w@[i as int]);
            assert(w@.skip(i as int).skip(1) =~= w@.skip(i + 1));
        }
        if is_uppercase_char(w[i]) {
            acc = acc + 1;
        }
        i = i + 1;
    }
    proof {
        assert(w@.skip(n as int) =~= Seq::<char>::empty());
    }
    acc
}

/// Upper-case counts stay within the word's length.
pub proof fn lemma_count_upper_bound(w: Seq<char>)
    ensures
        0 <= spec_count_upper(w) <= w.len(),
    decreases w.len(),
{
    if w.len() > 0 {
        lemma_count_upper_bound(w.skip(1));
    }
}

fn count_digit(w: &Vec<char>) -> (r: usize)
    ensures
        r == spec_count_digit(w@),
{
    let n = w.len();
    let mut acc: usize = 0;
    let mut i: usize = 0;
    proof {
        assert(w@.skip(0) =~= w@);
        lemma_count_digit_bound(w@);
    }
    while i < n
        invariant
            i <= n,
            n == w@.len(),
            acc <= i,
            spec_count_digit(w@) == acc + spec_count_digit(w@.skip(i as int)),
        decreases n - i,
    {
        proof {
            assert(w@.skip(i as int)[0] == w@[i as int]);
            assert(w@.skip(i as int).skip(1) =~= w@.skip(i + 1));
        }
        let u = w[i] as u32;
        if 48 <= u && u <= 57 {
            acc = acc + 1;
        }
        i = i + 1;
    }
    proof {
        assert(w@.skip(n as int) =~= Seq::<char>::empty());
    }
    acc
}

/// Digit counts stay within the word's length.
pub proof fn lemma_count_digit_bound(w: Seq<char>)
    ensures
        0 <= spec_count_digit(w) <= w.len(),
    decreases w.len(),
{
    if w.len() > 0 {
        lemma_count_digit_bound(w.skip(1));
    }
}

fn all_upper(w: &Vec<char>) -> (r: bool)
    ensures
        r == spec_all_upper(w@),
{
    let n = w.len();
    let mut i: usize = 0;
    while i < n
        invariant
            i <= n,
            n == w@.len(),
            forall|j: int| 0 <= j < i ==> uppercase_char(#[trigger] w@[j]),
        decreases n - i,
    {
        if !is_uppercase_char(w[i]) {
            return false;
        }
        i = i + 1;
    }
    true
}

/// A word left untouched by the capitalizer: parenthesized, an acronym in
/// full upper case, rich in upper-case letters, or rich in digits.
pub open spec fn spec_untouched(w: Seq<char>) -> bool {
    ||| (w.len() > 0 && w[0] == '(')
    ||| (spec_all_upper(w) && spec_word_bytes(w) > 1)
    ||| spec_count_upper(w) > 2
    ||| (spec_count_upper(w) > 1 && spec_word_bytes(w) > 2)
    ||| spec_count_digit(w) > 1
}

fn is_untouched(w: &Vec<char>) -> (r: bool)
    ensures
        r == spec_untouched(w@),
{
    if w.len() > 0 && w[0] == '(' {
        return true;
    }
    if all_upper(w) && word_bytes_exceed(w, 1) {
        return true;
    }
    let upper = count_upper(w);
    if upper > 2 {
        return true;
    }
    if upper > 1 && word_bytes_exceed(w, 2) {
        return true;
    }
    count_digit(w) > 1
}

/// The short words written in lower case mid-title.
pub open spec fn spec_is_preposition(lower: Seq<char>) -> bool {
    ||| lower == "and"@
    ||| lower == "but"@
    ||| lower == "or"@
    ||| lower == "of"@
    ||| lower == "for"@
    ||| lower == "nor"@
    ||| lower == "so"@
    ||| lower == "yet"@
    ||| lower == "to"@
    ||| lower == "the"@
    ||| lower == "at"@
    ||| lower == "a"@
    ||| lower == "an"@
}

fn is_preposition(lower: &str) -> (r: bool)
    ensures
        r == spec_is_preposition(lower@),
{
    str_eq(lower, "and") || str_eq(lower, "but") || str_eq(lower, "or") || str_eq(lower, "of")
        || str_eq(lower, "for") || str_eq(lower, "nor") || str_eq(lower, "so") || str_eq(
        lower,
        "yet",
    ) || str_eq(lower, "to") || str_eq(lower, "the") || str_eq(lower, "at") || str_eq(lower, "a")
        || str_eq(lower, "an")
}

/// The word matches the brand ASCII-case-insensitively as a prefix.
pub open spec fn spec_brand_prefix(w: Seq<char>, brand: Seq<char>) -> bool {
    w.len() >= brand.len() && (forall|i: int|
        0 <= i < brand.len() ==> spec_ascii_lower(#[trigger] w[i]) == brand[i])
}

fn brand_prefix(w: &Vec<char>, brand: &Vec<char>) -> (r: bool)
    ensures
        r == spec_brand_prefix(w@, brand@),
{
    let m = brand.len();
    if m > w.len() {
        return false;
    }
    let mut i: usize = 0;
    while i < m
        invariant
            i <= m,
            m == brand@.len(),
            m <= w@.len(),
            forall|j: int| 0 <= j < i ==> spec_ascii_lower(#[trigger] w@[j]) == brand@[j],
        decreases m - i,
    {
        if ascii_lower_char(w[i]) != brand[i] {
            return false;
        }
        i = i + 1;
    }
    true
}

/// The lower-cased word with its first character raised where that
/// character is ASCII, as the capitalizer writes an ordinary word.
pub open spec fn spec_cap_first(lower: Seq<char>) -> Seq<char> {
    if lower.len() > 0 && spec_is_ascii_char(lower[0]) {
        seq![spec_ascii_upper(lower[0])] + lower.skip(1)
    } else {
        lower
    }
}

/// One word of the title after the capitalizer. Brand spellings come
/// first, then the untouched shapes; an ordinary word is lower-cased and,
/// unless it is a short preposition resting mid-title, given a capital.
pub open spec fn spec_transform_word(w: Seq<char>, first: bool, last: bool, cap_next: bool) -> Seq<
    char,
> {
    if spec_brand_prefix(w, "zksync"@) {
        "ZKsync"@ + w.skip(6)
    } else if spec_brand_prefix(w, "agglayer"@) {
        "AggLayer"@ + w.skip(8)
    } else if spec_untouched(w) {
        w
    } else if cap_next || first || last || spec_word_bytes(w) > 3 || !spec_is_preposition(
        lower_of(w),
    ) {
        spec_cap_first(lower_of(w))
    } else {
        lower_of(w)
    }
}

fn transform_word(w: &Vec<char>, first: bool, last: bool, cap_next: bool) -> (r: String)
    ensures
        r@ == spec_transform_word(w@, first, last, cap_next),
{
    proof {
        reveal_strlit("zksync");
        reveal_strlit("agglayer");
    }
    if brand_prefix(w, &chars_of("zksync")) {
        let rest = sub_chars(w, 6, w.len());
        proof {
            assert(rest@ =~= w@.skip(6));
        }
        return String::from_str("ZKsync").concat(string_from_chars(&rest).as_str());
    }
    if brand_prefix(w, &chars_of("agglayer")) {
        let rest = sub_chars(w, 8, w.len());
        proof {
            assert(rest@ =~= w@.skip(8));
        }
        return String::from_str("AggLayer").concat(string_from_chars(&rest).as_str());
    }
    if is_untouched(w) {
        return string_from_chars(w);
    }
    let lower = lowercase_str(string_from_chars(w).as_str());
    if cap_next || first || last || word_bytes_exceed(w, 3) || !is_preposition(lower.as_str()) {
        let lv = chars_of(lower.as_str());
        if lv.len() > 0 {
            let c = lv[0];
            if (c as u32) < 128 {
                let mut lv = lv;
                lv[0] = ascii_upper_char(c);
                proof {
                    assert(lv@ =~= seq![spec_ascii_upper(c)] + lower_of(w@).skip(1));
                }
                return string_from_chars(&lv);
            }
        }
        lower
    } else {
        lower
    }
}

/// The words of the title after capitalization, in order. A word opens
/// with a capital when it follows a word ending in ':', stands first or
/// last, or is no short preposition.
pub open spec fn spec_capitalized_words(words: Seq<Seq<char>>) -> Seq<Seq<char>> {
    Seq::new(
        words.len(),
        |i: int|
            spec_transform_word(
                words[i],
                i == 0,
                i == words.len() - 1,
                i > 0 && words[i - 1].len() > 0 && words[i - 1].last() == ':',
            ),
    )
}

/// The title in headline capitalization: its whitespace-separated words,
/// each capitalized by the word rules, joined by single spaces.
pub open spec fn spec_capitalize_title(s: Seq<char>) -> Seq<char> {
    spec_join(spec_capitalized_words(spec_words(s)), " "@)
}

/// Capitalize a title for display.
pub fn capitalize_title(title: &str) -> (r: String)
    ensures
        r@ == spec_capitalize_title(title@),
{
    let chars = chars_of(title);
    let words = split_words(&chars);
    let ghost wv = words@.map_values(|w: Vec<char>| w@);
    let n = words.len();
    let mut out: Vec<String> = Vec::new();
    let mut i: usize = 0;
    proof {
        assert(out.deep_view() =~= spec_capitalized_words(wv).take(0));
    }
    while i < n
        invariant
            i <= n,
            n == words@.len(),
            wv == words@.map_values(|w: Vec<char>| w@),
            out.deep_view() == spec_capitalized_words(wv).take(i as int),
        decreases n - i,
    {
        let first = i == 0;
        let last = i == n - 1;
        let cap_next = if i > 0 {
            let prev = &words[i - 1];
            prev.len() > 0 && prev[prev.len() - 1] == ':'
        } else {
            false
        };
        proof {
            assert(wv[i as int] == words@[i as int]@);
            if i > 0 {
                assert(wv[i - 1] == words@[i - 1]@);
            }
        }
        let ghost before = out.deep_view();
        out.push(transform_word(&words[i], first, last, cap_next));
        proof {
            assert(out.deep_view() =~= before.push(spec_capitalized_words(wv)[i as int]));
            assert(spec_capitalized_words(wv).take(i + 1) =~= spec_capitalized_words(wv).take(
                i as int,
            ).push(spec_capitalized_words(wv)[i as int]));
        }
        i = i + 1;
    }
    let r = join_strings(&out, n, " ");
    proof {
        assert(out.deep_view().take(n as int) =~= spec_capitalized_words(wv));
        assert(wv == spec_words(title@));
    }
    r
}

/// The value of an optional rewrite rule handed around by reference.
pub open spec fn rule_view(o: Option<&String>) -> Option<Seq<char>> {
    match o {
        Some(s) => Some(s@),
        None => None,
    }
}

/// The two halves of a rewrite rule "OLD>NEW": present only when splitting
/// on '>' yields exactly two parts that are non-empty once trimmed.
pub open spec fn spec_rewrite_parts(rule: Seq<char>) -> Option<(Seq<char>, Seq<char>)> {
    match find_char(rule, '>') {
        Some(i) => {
            let after = rule.skip(i + 1);
            if find_char(after, '>') is Some {
                None
            } else {
                let from = spec_trim(rule.take(i));
                let to = spec_trim(after);
                if from.len() > 0 && to.len() > 0 {
                    Some((from, to))
                } else {
                    None
                }
            }
        },
        None => None,
    }
}

/// The URL after the optional rewrite rule: every literal occurrence of OLD
/// replaced by NEW where the rule is well formed, the URL unchanged where
/// the rule is absent or malformed.
pub open spec fn spec_replace_url(url: Seq<char>, rule: Option<Seq<char>>) -> Seq<char> {
    match rule {
        Some(r) => match spec_rewrite_parts(r) {
            Some(parts) => spec_replace(url, parts.0, parts.1),
            None => url,
        },
        None => url,
    }
}

/// Apply an optional "OLD>NEW" rewrite rule to a computed URL. A missing or
/// malformed rule degrades to a no-op, never to an error.
pub fn replace_url(original_url: &str, custom_url_replace: Option<&String>) -> (r: String)
    ensures
        custom_url_replace matches Some(rule) ==> r@ == spec_replace_url(
            original_url@,
            Some(rule@),
        ),
        custom_url_replace is None ==> r@ == original_url@,
{
    let rule = match custom_url_replace {
        Some(rule) => rule,
        None => {
            return original_url.to_owned();
        },
    };
    let rc = chars_of(rule.as_str());
    proof {
        assert(rc@.skip(0) =~= rc@);
    }
    let i = match find_char_in(&rc, '>', 0) {
        Some(i) => i,
        None => {
            return original_url.to_owned();
        },
    };
    if let Some(_) = find_char_in(&rc, '>', i + 1) {
        return original_url.to_owned();
    }
    let before = sub_chars(&rc, 0, i);
    let after = sub_chars(&rc, i + 1, rc.len());
    proof {
        assert(before@ =~= rc@.take(i as int));
        assert(after@ =~= rc@.skip(i + 1));
    }
    let from = trim_chars(&before);
    let to = trim_chars(&after);
    if from.len() == 0 || to.len() == 0 {
        return original_url.to_owned();
    }
    let url = chars_of(original_url);
    let replaced = replace_chars(&url, &from, &to);
    string_from_chars(&replaced)
}

} // verus!

//! Classification of raw log lines into severity categories.
//!
//! A line is matched case-insensitively against the fixed keywords
//! `info`, `warning` and `error`, in that priority order; a line that
//! contains none of them falls back to [`LogFormatter::Trace`].

use vstd::prelude::*;
use crate::LogFormatter;

verus! {

/// ASCII lower-casing of a single character; every other character is
/// left unchanged. The three keywords contain only ASCII letters, so
/// this is exactly the case folding the keyword match needs.
pub open spec fn lower(c: char) -> char {
    match c {
        'A' => 'a',
        'B' => 'b',
        'C' => 'c',
        'D' => 'd',
        'E' => 'e',
        'F' => 'f',
        'G' => 'g',
        'H' => 'h',
        'I' => 'i',
        'J' => 'j',
        'K' => 'k',
        'L' => 'l',
        'M' => 'm',
        'N' => 'n',
        'O' => 'o',
        'P' => 'p',
        'Q' => 'q',
        'R' => 'r',
        'S' => 's',
        'T' => 't',
        'U' => 'u',
        'V' => 'v',
        'W' => 'w',
        'X' => 'x',
        'Y' => 'y',
        'Z' => 'z',
        _ => c,
    }
}

/// The keyword `kw` occurs in `s` at position `i`, up to ASCII case.
pub open spec fn matches_at(s: Seq<char>, kw: Seq<char>, i: int) -> bool {
    &&& 0 <= i
    &&& i + kw.len() <= s.len()
    &&& forall|j: int| 0 <= j < kw.len() ==> lower(s[i + j]) == kw[j]
}

/// The keyword `kw` (given in lower case) occurs somewhere in `s`,
/// up to ASCII case.
pub open spec fn contains_keyword(s: Seq<char>, kw: Seq<char>) -> bool {
    exists|i: int| matches_at(s, kw, i)
}

/// The severity of a line: the first keyword, in the priority order
/// `info`, `warning`, `error`, that occurs in it (case-insensitively);
/// `Trace` when none does.
pub open spec fn spec_classify(s: Seq<char>) -> LogFormatter {
    if contains_keyword(s, "info"@) {
        LogFormatter::Info
    } else if contains_keyword(s, "warning"@) {
        LogFormatter::Warning
    } else if contains_keyword(s, "error"@) {
        LogFormatter::Error
    } else {
        LogFormatter::Trace
    }
}

/// Executable ASCII lower-casing, equal to [`lower`].
pub fn lower_char(c: char) -> (r: char)
    ensures
        r == lower(c),
{
    match c {
        'A' => 'a',
        'B' => 'b',
        'C' => 'c',
        'D' => 'd',
        'E' => 'e',
        'F' => 'f',
        'G' => 'g',
        'H' => 'h',
        'I' => 'i',
        'J' => 'j',
        'K' => 'k',
        'L' => 'l',
        'M' => 'm',
        'N' => 'n',
        'O' => 'o',
        'P' => 'p',
        'Q' => 'q',
        'R' => 'r',
        'S' => 's',
        'T' => 't',
        'U' => 'u',
        'V' => 'v',
        'W' => 'w',
        'X' => 'x',
        'Y' => 'y',
        'Z' => 'z',
        _ => c,
    }
}

/// Does `line` contain `kw` (given in lower case), up to ASCII case?
pub fn contains_keyword_str(line: &str, kw: &str) -> (r: bool)
    ensures
        r == contains_keyword(line@, kw@),
{
    let n = line.unicode_len();
    let m = kw.unicode_len();
    if m == 0 {
        assert(matches_at(line@, kw@, 0));
        return true;
    }
    if m > n {
        assert(forall|i: int| !matches_at(line@, kw@, i));
        return false;
    }
    let mut i: usize = 0;
    while i <= n - m
        invariant
            m <= n,
            1 <= m,
            n == line@.len(),
            m == kw@.len(),
            i <= n - m + 1,
            forall|i2: int| 0 <= i2 < i ==> !matches_at(line@, kw@, i2),
        decreases n - m - i + 1,
    {
        let mut j: usize = 0;
        let mut all_match = true;
        while j < m
            invariant
                m <= n,
                1 <= m,
                n == line@.len(),
                m == kw@.len(),
                i <= n - m,
                j <= m,
                all_match ==> forall|j2: int| 0 <= j2 < j ==> lower(line@[i + j2]) == kw@[j2],
                !all_match ==> !matches_at(line@, kw@, i as int),
            decreases m - j,
        {
            if lower_char(line.get_char(i + j)) != kw.get_char(j) {
                all_match = false;
                assert(!matches_at(line@, kw@, i as int));
                j = m;
            } else {
                j = j + 1;
            }
        }
        if all_match {
            assert(matches_at(line@, kw@, i as int));
            return true;
        }
        i = i + 1;
    }
    assert(forall|i2: int| !matches_at(line@, kw@, i2));
    return false;
}

/// Classify one raw line: the first keyword, in the priority order
/// `info`, `warning`, `error`, that the line contains case-insensitively
/// decides the category; a line with none of them is `Trace`.
pub fn classify(line: &str) -> (r: LogFormatter)
    ensures
        r == spec_classify(line@),
{
    if contains_keyword_str(line, "info") {
        LogFormatter::Info
    } else if contains_keyword_str(line, "warning") {
        LogFormatter::Warning
    } else if contains_keyword_str(line, "error") {
        LogFormatter::Error
    } else {
        LogFormatter::Trace
    }
}

/// The whole string `s`, lower-cased character by character.
pub open spec fn lower_seq(s: Seq<char>) -> Seq<char> {
    s.map_values(|c: char| lower(c))
}

/// The malformed severity-filter label error: the label given at
/// dashboard construction names no severity category.
#[derive(Clone, Copy, PartialEq, Eq, Structural, Debug)]
pub struct InvalidArgument;

/// What a severity-filter label means: the empty label asks for no
/// filter, each category's name (in any ASCII case) for that
/// category, and anything else is malformed.
pub open spec fn spec_parse_filter(s: Seq<char>) -> Result<
    Option<LogFormatter>,
    InvalidArgument,
> {
    if s.len() == 0 {
        Ok(None)
    } else if lower_seq(s) == "info"@ {
        Ok(Some(LogFormatter::Info))
    } else if lower_seq(s) == "warning"@ {
        Ok(Some(LogFormatter::Warning))
    } else if lower_seq(s) == "error"@ {
        Ok(Some(LogFormatter::Error))
    } else if lower_seq(s) == "trace"@ {
        Ok(Some(LogFormatter::Trace))
    } else {
        Err(InvalidArgument)
    }
}

/// Does `s`, lower-cased, equal `kw`?
fn label_matches(s: &str, kw: &str) -> (r: bool)
    ensures
        r == (lower_seq(s@) == kw@),
{
    let n = s.unicode_len();
    let m = kw.unicode_len();
    if n != m {
        assert(lower_seq(s@).len() != kw@.len());
        return false;
    }
    let mut i: usize = 0;
    while i < n
        invariant
            n == s@.len(),
            n == kw@.len(),
            i <= n,
            forall|j: int| 0 <= j < i ==> lower_seq(s@)[j] == kw@[j],
        decreases n - i,
    {
        if lower_char(s.get_char(i)) != kw.get_char(i) {
            assert(lower_seq(s@)[i as int] != kw@[i as int]);
            return false;
        }
        i = i + 1;
    }
    assert(lower_seq(s@) =~= kw@);
    return true;
}

/// Parse the severity-filter label handed to dashboard construction:
/// the empty label means no filter, a category name (in any ASCII
/// case) selects that category, and any other label is rejected as
/// malformed before the dashboard starts.
pub fn parse_filter(s: &str) -> (r: Result<Option<LogFormatter>, InvalidArgument>)
    ensures
        r == spec_parse_filter(s@),
{
    if s.unicode_len() == 0 {
        Ok(None)
    } else if label_matches(s, "info") {
        Ok(Some(LogFormatter::Info))
    } else if label_matches(s, "warning") {
        Ok(Some(LogFormatter::Warning))
    } else if label_matches(s, "error") {
        Ok(Some(LogFormatter::Error))
    } else if label_matches(s, "trace") {
        Ok(Some(LogFormatter::Trace))
    } else {
        Err(InvalidArgument)
    }
}

/// The keyword priority order, written out: a line containing `info`
/// is always `Info`; `warning` decides only when `info` is absent;
/// `error` only when both earlier keywords are absent; everything
/// else is `Trace`.
pub proof fn lemma_classify_priority(s: Seq<char>)
    ensures
        contains_keyword(s, "info"@) ==> spec_classify(s) == LogFormatter::Info,
        !contains_keyword(s, "info"@) && contains_keyword(s, "warning"@) ==> spec_classify(s)
            == LogFormatter::Warning,
        !contains_keyword(s, "info"@) && !contains_keyword(s, "warning"@) && contains_keyword(
            s,
            "error"@,
        ) ==> spec_classify(s) == LogFormatter::Error,
        !contains_keyword(s, "info"@) && !contains_keyword(s, "warning"@) && !contains_keyword(
            s,
            "error"@,
        ) ==> spec_classify(s) == LogFormatter::Trace,
{
}

} // verus!

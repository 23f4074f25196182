//! Reading the `(severity, message)` pairs back out of an exported
//! JSON document.
//!
//! The grammar here accepts exactly the documents that
//! [`crate::export::spec_export`] produces; the round-trip theorem at
//! the bottom shows that reparsing an exported store recovers every
//! entry's severity and message, in insertion order.

use vstd::prelude::*;
use crate::LogFormatter;
use crate::spec_label;
use crate::export::{esc_char, escape, hex_digit, spec_entries_json, spec_entry_json, spec_export};
use crate::formatter::LogEntry;

verus! {

/// Strip the exact prefix `lit` from `s`.
pub open spec fn expect(s: Seq<char>, lit: Seq<char>) -> Option<Seq<char>> {
    if lit.len() <= s.len() && s.take(lit.len() as int) == lit {
        Some(s.skip(lit.len() as int))
    } else {
        None
    }
}

/// The value of one lower-case hexadecimal digit.
pub open spec fn hex_val(c: char) -> Option<int> {
    if c == '0' {
        Some(0int)
    } else if c == '1' {
        Some(1int)
    } else if c == '2' {
        Some(2int)
    } else if c == '3' {
        Some(3int)
    } else if c == '4' {
        Some(4int)
    } else if c == '5' {
        Some(5int)
    } else if c == '6' {
        Some(6int)
    } else if c == '7' {
        Some(7int)
    } else if c == '8' {
        Some(8int)
    } else if c == '9' {
        Some(9int)
    } else if c == 'a' {
        Some(10int)
    } else if c == 'b' {
        Some(11int)
    } else if c == 'c' {
        Some(12int)
    } else if c == 'd' {
        Some(13int)
    } else if c == 'e' {
        Some(14int)
    } else if c == 'f' {
        Some(15int)
    } else {
        None
    }
}

/// The character a two-character escape stands for.
pub open spec fn short_escape(c: char) -> Option<char> {
    if c == '"' {
        Some('"')
    } else if c == '\\' {
        Some('\\')
    } else if c == '/' {
        Some('/')
    } else if c == 'n' {
        Some('\n')
    } else if c == 'r' {
        Some('\r')
    } else if c == 't' {
        Some('\t')
    } else if c == 'b' {
        Some('\u{0008}')
    } else if c == 'f' {
        Some('\u{000C}')
    } else {
        None
    }
}

/// Scan a JSON string body up to its closing quote: the decoded text,
/// and what follows the quote.
pub open spec fn unesc(s: Seq<char>) -> Option<(Seq<char>, Seq<char>)>
    decreases s.len(),
{
    if s.len() == 0 {
        None
    } else if s[0] == '"' {
        Some((Seq::empty(), s.drop_first()))
    } else if s[0] == '\\' {
        if s.len() < 2 {
            None
        } else if s[1] == 'u' {
            if s.len() < 6 {
                None
            } else {
                match (hex_val(s[2]), hex_val(s[3]), hex_val(s[4]), hex_val(s[5])) {
                    (Some(h1), Some(h2), Some(h3), Some(h4)) => {
                        let v = h1 * 4096 + h2 * 256 + h3 * 16 + h4;
                        if v < 0xD800 {
                            match unesc(s.skip(6)) {
                                Some((t, r)) => Some((seq![((v as u32) as char)] + t, r)),
                                None => None,
                            }
                        } else {
                            None
                        }
                    },
                    _ => None,
                }
            }
        } else {
            match short_escape(s[1]) {
                Some(c) => match unesc(s.skip(2)) {
                    Some((t, r)) => Some((seq![c] + t, r)),
                    None => None,
                },
                None => None,
            }
        }
    } else {
        match unesc(s.drop_first()) {
            Some((t, r)) => Some((seq![s[0]] + t, r)),
            None => None,
        }
    }
}

/// The severity a JSON label names.
pub open spec fn level_of_label(s: Seq<char>) -> Option<LogFormatter> {
    if s == spec_label(LogFormatter::Info) {
        Some(LogFormatter::Info)
    } else if s == spec_label(LogFormatter::Warning) {
        Some(LogFormatter::Warning)
    } else if s == spec_label(LogFormatter::Error) {
        Some(LogFormatter::Error)
    } else if s == spec_label(LogFormatter::Trace) {
        Some(LogFormatter::Trace)
    } else {
        None
    }
}

/// Parse one entry object: the `(severity, message)` pair it carries,
/// and what follows the object. The `date` and `file_path` values are
/// read and checked but not returned.
pub open spec fn parse_entry(s: Seq<char>) -> Option<((LogFormatter, Seq<char>), Seq<char>)> {
    match expect(s, "  {\n    \"level\": \""@) {
        None => None,
        Some(r1) => match unesc(r1) {
            None => None,
            Some((label, r2)) => match level_of_label(label) {
                None => None,
                Some(level) => match expect(r2, ",\n    \"message\": \""@) {
                    None => None,
                    Some(r3) => match unesc(r3) {
                        None => None,
                        Some((msg, r4)) => match expect(r4, ",\n    \"date\": \""@) {
                            None => None,
                            Some(r5) => match unesc(r5) {
                                None => None,
                                Some((_date, r6)) => match expect(r6, ",\n    \"file_path\": \""@) {
                                    None => None,
                                    Some(r7) => match unesc(r7) {
                                        None => None,
                                        Some((_path, r8)) => match expect(r8, "\n  }"@) {
                                            None => None,
                                            Some(r9) => Some(((level, msg), r9)),
                                        },
                                    },
                                },
                            },
                        },
                    },
                },
            },
        },
    }
}

/// Parse the entry objects of a non-empty array, separated by `,\n`
/// and closed by `\n]`; `fuel` bounds the recursion and any value of
/// at least the number of entries is enough.
pub open spec fn parse_entries(s: Seq<char>, fuel: nat) -> Option<
    Seq<(LogFormatter, Seq<char>)>,
>
    decreases fuel,
{
    if fuel == 0 {
        None
    } else {
        match parse_entry(s) {
            None => None,
            Some((pair, rest)) => {
                if rest == "\n]"@ {
                    Some(seq![pair])
                } else {
                    match expect(rest, ",\n"@) {
                        None => None,
                        Some(r2) => match parse_entries(r2, (fuel - 1) as nat) {
                            None => None,
                            Some(ps) => Some(seq![pair] + ps),
                        },
                    }
                }
            },
        }
    }
}

/// Parse a whole exported document into its `(severity, message)`
/// pairs: `[]` is the empty store, anything else a bracketed,
/// non-empty entry array.
pub open spec fn spec_parse(s: Seq<char>) -> Option<Seq<(LogFormatter, Seq<char>)>> {
    if s == "[]"@ {
        Some(Seq::empty())
    } else {
        match expect(s, "[\n"@) {
            None => None,
            Some(r) => parse_entries(r, r.len()),
        }
    }
}

/// The `(severity, message)` pairs of a sequence of entries.
pub open spec fn entry_pairs(entries: Seq<LogEntry>) -> Seq<(LogFormatter, Seq<char>)> {
    entries.map_values(|e: LogEntry| (e.level, e.message@))
}

/// The executable pairs carry the same severities and the same
/// message texts as the spec-level pairs, in the same order.
pub open spec fn pairs_match(
    v: Seq<(LogFormatter, String)>,
    ps: Seq<(LogFormatter, Seq<char>)>,
) -> bool {
    &&& v.len() == ps.len()
    &&& forall|k: int| 0 <= k < ps.len() ==> v[k].0 == ps[k].0 && v[k].1@ == ps[k].1
}

/// Relies on char::from_u32: every value below the surrogate range is
/// a scalar value, and the returned character has exactly that code.
#[verifier::external_body]
fn char_of_u32(v: u32) -> (c: char)
    requires
        v < 0xD800,
    ensures
        c as u32 == v,
{
    char::from_u32(v).unwrap()
}

/// Executable hexadecimal digit value, equal to [`hex_val`].
fn hex_val_char(c: char) -> (r: Option<u32>)
    ensures
        match r {
            Some(v) => hex_val(c) == Some(v as int) && v < 16,
            None => hex_val(c) is None,
        },
{
    if c == '0' {
        Some(0)
    } else if c == '1' {
        Some(1)
    } else if c == '2' {
        Some(2)
    } else if c == '3' {
        Some(3)
    } else if c == '4' {
        Some(4)
    } else if c == '5' {
        Some(5)
    } else if c == '6' {
        Some(6)
    } else if c == '7' {
        Some(7)
    } else if c == '8' {
        Some(8)
    } else if c == '9' {
        Some(9)
    } else if c == 'a' {
        Some(10)
    } else if c == 'b' {
        Some(11)
    } else if c == 'c' {
        Some(12)
    } else if c == 'd' {
        Some(13)
    } else if c == 'e' {
        Some(14)
    } else if c == 'f' {
        Some(15)
    } else {
        None
    }
}

/// Executable two-character escape, equal to [`short_escape`].
fn short_escape_char(c: char) -> (r: Option<char>)
    ensures
        r == short_escape(c),
{
    if c == '"' {
        Some('"')
    } else if c == '\\' {
        Some('\\')
    } else if c == '/' {
        Some('/')
    } else if c == 'n' {
        Some('\n')
    } else if c == 'r' {
        Some('\r')
    } else if c == 't' {
        Some('\t')
    } else if c == 'b' {
        Some('\u{0008}')
    } else if c == 'f' {
        Some('\u{000C}')
    } else {
        None
    }
}

/// Match the literal `lit` at position `i`: the position after it, or
/// `None` where the document differs, exactly as [`expect`] on the
/// remaining document.
fn expect_lit(chars: &Vec<char>, i: usize, lit: &str) -> (r: Option<usize>)
    requires
        i <= chars@.len(),
    ensures
        match r {
            Some(j) => i <= j <= chars@.len() && expect(chars@.skip(i as int), lit@) == Some(
                chars@.skip(j as int),
            ),
            None => expect(chars@.skip(i as int), lit@) is None,
        },
{
    let n = chars.len();
    let m = lit.unicode_len();
    if n - i < m {
        return None;
    }
    let mut j: usize = 0;
    while j < m
        invariant
            i + m <= n,
            n == chars@.len(),
            m == lit@.len(),
            j <= m,
            forall|k: int| 0 <= k < j ==> chars@.skip(i as int)[k] == lit@[k],
        decreases m - j,
    {
        if chars[i + j] != lit.get_char(j) {
            proof {
                assert(chars@.skip(i as int)[j as int] != lit@[j as int]);
                assert(chars@.skip(i as int).take(m as int)[j as int] == chars@.skip(i as int)[
                    j as int]);
            }
            return None;
        }
        j = j + 1;
    }
    proof {
        assert(chars@.skip(i as int).take(m as int) =~= lit@);
        assert(chars@.skip(i as int).skip(m as int) =~= chars@.skip(i as int + m as int));
    }
    Some(i + m)
}

/// Scan a string body at position `i`: the decoded text and the
/// position after the closing quote, exactly as [`unesc`] on the
/// remaining document.
fn unesc_at(chars: &Vec<char>, i: usize) -> (r: Option<(Vec<char>, usize)>)
    requires
        i <= chars@.len(),
    ensures
        match r {
            Some(tj) => i < tj.1 <= chars@.len() && unesc(chars@.skip(i as int)) == Some(
                (tj.0@, chars@.skip(tj.1 as int)),
            ),
            None => unesc(chars@.skip(i as int)) is None,
        },
    decreases chars@.len() - i,
{
    let n = chars.len();
    if i == n {
        return None;
    }
    let c0 = chars[i];
    if c0 == '"' {
        proof {
            assert(chars@.skip(i as int).drop_first() =~= chars@.skip(i as int + 1));
        }
        let t: Vec<char> = Vec::new();
        return Some((t, i + 1));
    }
    if c0 == '\\' {
        if n - i < 2 {
            return None;
        }
        let c1 = chars[i + 1];
        if c1 == 'u' {
            if n - i < 6 {
                return None;
            }
            let h1 = match hex_val_char(chars[i + 2]) {
                Some(h) => h,
                None => {
                    return None;
                },
            };
            let h2 = match hex_val_char(chars[i + 3]) {
                Some(h) => h,
                None => {
                    return None;
                },
            };
            let h3 = match hex_val_char(chars[i + 4]) {
                Some(h) => h,
                None => {
                    return None;
                },
            };
            let h4 = match hex_val_char(chars[i + 5]) {
                Some(h) => h,
                None => {
                    return None;
                },
            };
            let v: u32 = h1 * 4096 + h2 * 256 + h3 * 16 + h4;
            if v >= 0xD800 {
                return None;
            }
            let c = char_of_u32(v);
            match unesc_at(chars, i + 6) {
                None => {
                    proof {
                        assert(chars@.skip(i as int).skip(6) =~= chars@.skip(i as int + 6));
                    }
                    return None;
                },
                Some((mut t, j)) => {
                    let mut out: Vec<char> = Vec::new();
                    out.push(c);
                    out.append(&mut t);
                    proof {
                        vstd::utf8::char_u32_cast(c, v);
                        assert(chars@.skip(i as int).skip(6) =~= chars@.skip(i as int + 6));
                        assert(out@ =~= seq![c] + out@.drop_first());
                    }
                    return Some((out, j));
                },
            }
        }
        let dec = match short_escape_char(c1) {
            Some(c) => c,
            None => {
                return None;
            },
        };
        match unesc_at(chars, i + 2) {
            None => {
                proof {
                    assert(chars@.skip(i as int).skip(2) =~= chars@.skip(i as int + 2));
                }
                return None;
            },
            Some((mut t, j)) => {
                let mut out: Vec<char> = Vec::new();
                out.push(dec);
                out.append(&mut t);
                proof {
                    assert(chars@.skip(i as int).skip(2) =~= chars@.skip(i as int + 2));
                    assert(out@ =~= seq![dec] + out@.drop_first());
                }
                return Some((out, j));
            },
        }
    }
    match unesc_at(chars, i + 1) {
        None => {
            proof {
                assert(chars@.skip(i as int).drop_first() =~= chars@.skip(i as int + 1));
            }
            None
        },
        Some((mut t, j)) => {
            let mut out: Vec<char> = Vec::new();
            out.push(c0);
            out.append(&mut t);
            proof {
                assert(chars@.skip(i as int).drop_first() =~= chars@.skip(i as int + 1));
                assert(out@ =~= seq![c0] + out@.drop_first());
            }
            Some((out, j))
        },
    }
}

/// Is the decoded text one of the four severity labels?
fn chars_eq_lit(v: &Vec<char>, lit: &str) -> (r: bool)
    ensures
        r == (v@ == lit@),
{
    let n = v.len();
    let m = lit.unicode_len();
    if n != m {
        return false;
    }
    let mut i: usize = 0;
    while i < n
        invariant
            n == v@.len(),
            n == lit@.len(),
            i <= n,
            forall|k: int| 0 <= k < i ==> v@[k] == lit@[k],
        decreases n - i,
    {
        if v[i] != lit.get_char(i) {
            return false;
        }
        i = i + 1;
    }
    proof {
        assert(v@ =~= lit@);
    }
    true
}

/// Executable label lookup, equal to [`level_of_label`].
fn level_of_chars(label: &Vec<char>) -> (r: Option<LogFormatter>)
    ensures
        r == level_of_label(label@),
{
    if chars_eq_lit(label, "Info") {
        Some(LogFormatter::Info)
    } else if chars_eq_lit(label, "Warning") {
        Some(LogFormatter::Warning)
    } else if chars_eq_lit(label, "Error") {
        Some(LogFormatter::Error)
    } else if chars_eq_lit(label, "Trace") {
        Some(LogFormatter::Trace)
    } else {
        None
    }
}

/// Parse one entry object at position `i`, exactly as [`parse_entry`]
/// on the remaining document.
fn parse_entry_at(chars: &Vec<char>, i: usize) -> (r: Option<((LogFormatter, String), usize)>)
    requires
        i <= chars@.len(),
    ensures
        match r {
            Some(pj) => pj.1 <= chars@.len() && parse_entry(chars@.skip(i as int)) == Some(
                ((pj.0.0, pj.0.1@), chars@.skip(pj.1 as int)),
            ),
            None => parse_entry(chars@.skip(i as int)) is None,
        },
{
    let j1 = match expect_lit(chars, i, "  {\n    \"level\": \"") {
        Some(j) => j,
        None => {
            return None;
        },
    };
    let (label, j2) = match unesc_at(chars, j1) {
        Some(x) => x,
        None => {
            return None;
        },
    };
    let level = match level_of_chars(&label) {
        Some(l) => l,
        None => {
            return None;
        },
    };
    let j3 = match expect_lit(chars, j2, ",\n    \"message\": \"") {
        Some(j) => j,
        None => {
            return None;
        },
    };
    let (msg, j4) = match unesc_at(chars, j3) {
        Some(x) => x,
        None => {
            return None;
        },
    };
    let j5 = match expect_lit(chars, j4, ",\n    \"date\": \"") {
        Some(j) => j,
        None => {
            return None;
        },
    };
    let (_date, j6) = match unesc_at(chars, j5) {
        Some(x) => x,
        None => {
            return None;
        },
    };
    let j7 = match expect_lit(chars, j6, ",\n    \"file_path\": \"") {
        Some(j) => j,
        None => {
            return None;
        },
    };
    let (_path, j8) = match unesc_at(chars, j7) {
        Some(x) => x,
        None => {
            return None;
        },
    };
    let j9 = match expect_lit(chars, j8, "\n  }") {
        Some(j) => j,
        None => {
            return None;
        },
    };
    Some(((level, crate::text::chars_to_string(&msg)), j9))
}

/// Parse the entries of a non-empty array at position `i`, exactly as
/// [`parse_entries`] on the remaining document.
fn parse_entries_at(chars: &Vec<char>, i: usize, fuel: usize) -> (r: Option<
    Vec<(LogFormatter, String)>,
>)
    requires
        i <= chars@.len(),
    ensures
        match r {
            Some(v) => parse_entries(chars@.skip(i as int), fuel as nat) matches Some(ps)
                && pairs_match(v@, ps),
            None => parse_entries(chars@.skip(i as int), fuel as nat) is None,
        },
    decreases fuel,
{
    if fuel == 0 {
        return None;
    }
    let n = chars.len();
    let (pair, j) = match parse_entry_at(chars, i) {
        Some(x) => x,
        None => {
            return None;
        },
    };
    let is_end = if n - j == 2 {
        chars[j] == '\n' && chars[j + 1] == ']'
    } else {
        false
    };
    proof {
        reveal_strlit("\n]");
        if is_end {
            assert(chars@.skip(j as int) =~= "\n]"@);
        } else if n - j == 2 {
            assert(chars@.skip(j as int)[0] == chars@[j as int]);
            assert(chars@.skip(j as int)[1] == chars@[j as int + 1]);
            assert(chars@.skip(j as int) != "\n]"@);
        } else {
            assert(chars@.skip(j as int).len() != "\n]"@.len());
            assert(chars@.skip(j as int) != "\n]"@);
        }
    }
    if is_end {
        let mut out: Vec<(LogFormatter, String)> = Vec::new();
        out.push(pair);
        return Some(out);
    }
    let j2 = match expect_lit(chars, j, ",\n") {
        Some(x) => x,
        None => {
            return None;
        },
    };
    match parse_entries_at(chars, j2, fuel - 1) {
        None => None,
        Some(rest) => {
            let mut out: Vec<(LogFormatter, String)> = Vec::new();
            out.push(pair);
            let mut rest = rest;
            out.append(&mut rest);
            Some(out)
        },
    }
}

/// Reparse an exported document into its `(severity, message)` pairs,
/// exactly as [`spec_parse`] reads it: the result carries, for each
/// entry of the array in order, the severity its label names and the
/// unescaped message text.
pub fn parse_exported(s: &str) -> (r: Option<Vec<(LogFormatter, String)>>)
    ensures
        match r {
            Some(v) => spec_parse(s@) matches Some(ps) && pairs_match(v@, ps),
            None => spec_parse(s@) is None,
        },
{
    let chars = crate::text::str_to_chars(s);
    let n = chars.len();
    let is_empty_doc = if n == 2 {
        chars[0] == '[' && chars[1] == ']'
    } else {
        false
    };
    proof {
        reveal_strlit("[]");
        if is_empty_doc {
            assert(s@ =~= "[]"@);
        } else {
            assert(s@ != "[]"@);
        }
    }
    if is_empty_doc {
        let out: Vec<(LogFormatter, String)> = Vec::new();
        return Some(out);
    }
    let j = match expect_lit(&chars, 0, "[\n") {
        Some(x) => x,
        None => {
            proof {
                assert(chars@.skip(0) =~= s@);
            }
            return None;
        },
    };
    proof {
        assert(chars@.skip(0) =~= s@);
    }
    parse_entries_at(&chars, j, n - j)
}

/// Stripping a literal off a document that starts with it leaves the
/// remainder.
proof fn lemma_expect_prefix(lit: Seq<char>, rest: Seq<char>)
    ensures
        expect(lit + rest, lit) == Some(rest),
{
    assert((lit + rest).take(lit.len() as int) =~= lit);
    assert((lit + rest).skip(lit.len() as int) =~= rest);
}

/// [`escape`] also unfolds at the front: the escape of the first
/// character, then the escape of the rest.
proof fn lemma_escape_head(s: Seq<char>)
    requires
        s.len() > 0,
    ensures
        escape(s) == esc_char(s[0]) + escape(s.drop_first()),
    decreases s.len(),
{
    if s.len() == 1 {
        assert(s.drop_last() =~= Seq::<char>::empty());
        assert(s.drop_first() =~= Seq::<char>::empty());
        assert(escape(s) =~= esc_char(s[0]) + escape(s.drop_first()));
    } else {
        lemma_escape_head(s.drop_last());
        assert(s.drop_last().drop_first() =~= s.drop_first().drop_last());
        assert(s.drop_last()[0] == s[0]);
        assert(s.drop_first().last() == s.last());
        assert(escape(s) =~= esc_char(s[0]) + escape(s.drop_first()));
    }
}

/// Reading a hexadecimal digit character back gives the digit.
proof fn lemma_hex_val_digit(d: int)
    requires
        0 <= d < 16,
    ensures
        hex_val(hex_digit(d)) == Some(d),
{
}

/// Scanning the escape of `m`, a closing quote and a tail decodes `m`
/// exactly and stops at the tail.
proof fn lemma_unesc_escape(m: Seq<char>, tail: Seq<char>)
    ensures
        unesc(escape(m) + seq!['"'] + tail) == Some((m, tail)),
    decreases m.len(),
{
    let s = escape(m) + seq!['"'] + tail;
    if m.len() == 0 {
        assert(escape(m) =~= Seq::<char>::empty());
        assert(s =~= seq!['"'] + tail);
        assert(s[0] == '"');
        assert(s.drop_first() =~= tail);
    } else {
        let c = m[0];
        let m2 = m.drop_first();
        lemma_escape_head(m);
        lemma_unesc_escape(m2, tail);
        let rest = escape(m2) + seq!['"'] + tail;
        assert(s =~= esc_char(c) + rest);
        assert(seq![c] + m2 =~= m);
        if c == '"' || c == '\\' || c == '\n' || c == '\r' || c == '\t' || c == '\u{0008}' || c
            == '\u{000C}' {
            assert(s[0] == '\\');
            assert(s.skip(2) =~= rest);
            assert(unesc(s) == Some((m, tail)));
        } else if (c as u32) < 0x20 {
            let vi = (c as u32) as int;
            assert(s[0] == '\\');
            assert(s[1] == 'u');
            assert(s[2] == '0');
            assert(s[3] == '0');
            assert(s[4] == hex_digit(vi / 16));
            assert(s[5] == hex_digit(vi % 16));
            lemma_hex_val_digit(vi / 16);
            lemma_hex_val_digit(vi % 16);
            let v = 0 * 4096 + 0 * 256 + (vi / 16) * 16 + (vi % 16);
            assert(v == vi);
            assert(v < 0xD800);
            let u = v as u32;
            assert(u == c as u32);
            vstd::utf8::char_u32_cast(c, u);
            assert((u as char) == c);
            assert(s.skip(6) =~= rest);
            assert(unesc(s) == Some((m, tail)));
        } else {
            assert(esc_char(c) =~= seq![c]);
            assert(s[0] == c);
            assert(s.drop_first() =~= rest);
            assert(unesc(s) == Some((m, tail)));
        }
    }
}

/// Each severity's JSON label names that severity back.
proof fn lemma_level_of_label(level: LogFormatter)
    ensures
        level_of_label(spec_label(level)) == Some(level),
{
    reveal_strlit("Info");
    reveal_strlit("Warning");
    reveal_strlit("Error");
    reveal_strlit("Trace");
    assert("Info"@.len() == 4);
    assert("Warning"@.len() == 7);
    assert("Error"@.len() == 5);
    assert("Trace"@.len() == 5);
    assert("Error"@[0] == 'E');
    assert("Trace"@[0] == 'T');
}

/// Parsing the JSON object of one entry followed by anything yields
/// the entry's severity and message and stops right after the object.
#[verifier::rlimit(80)]
proof fn lemma_parse_entry(e: LogEntry, tail: Seq<char>)
    ensures
        parse_entry(spec_entry_json(e) + tail) == Some(((e.level, e.message@), tail)),
{
    reveal_strlit("\"");
    assert("\""@ =~= seq!['"']);
    let open = "  {\n    \"level\": \""@;
    let sepm = ",\n    \"message\": \""@;
    let sepd = ",\n    \"date\": \""@;
    let sepp = ",\n    \"file_path\": \""@;
    let close = "\n  }"@;
    let lab = spec_label(e.level);
    let s = spec_entry_json(e) + tail;
    let t4 = close + tail;
    let t3 = sepp + escape(e.file_path@) + seq!['"'] + t4;
    let t2 = sepd + escape(e.date@) + seq!['"'] + t3;
    let t1 = sepm + escape(e.message@) + seq!['"'] + t2;
    let t0 = escape(lab) + seq!['"'] + t1;
    assert(s =~= open + t0);
    lemma_expect_prefix(open, t0);
    lemma_unesc_escape(lab, t1);
    lemma_level_of_label(e.level);
    assert(t1 =~= sepm + (escape(e.message@) + seq!['"'] + t2));
    lemma_expect_prefix(sepm, escape(e.message@) + seq!['"'] + t2);
    lemma_unesc_escape(e.message@, t2);
    assert(t2 =~= sepd + (escape(e.date@) + seq!['"'] + t3));
    lemma_expect_prefix(sepd, escape(e.date@) + seq!['"'] + t3);
    lemma_unesc_escape(e.date@, t3);
    assert(t3 =~= sepp + (escape(e.file_path@) + seq!['"'] + t4));
    lemma_expect_prefix(sepp, escape(e.file_path@) + seq!['"'] + t4);
    lemma_unesc_escape(e.file_path@, t4);
    lemma_expect_prefix(close, tail);
}

/// Every entry object is at least one character long, so the joined
/// array body is at least as long as the number of entries.
proof fn lemma_entries_json_len(entries: Seq<LogEntry>)
    ensures
        spec_entries_json(entries).len() >= entries.len(),
    decreases entries.len(),
{
    reveal_strlit("  {\n    \"level\": \"");
    if entries.len() <= 1 {
    } else {
        lemma_entries_json_len(entries.drop_last());
    }
}

/// The joined array body also unfolds at the front: the first entry's
/// object, the separator, and the body of the remaining entries.
proof fn lemma_entries_json_head(entries: Seq<LogEntry>)
    requires
        entries.len() >= 2,
    ensures
        spec_entries_json(entries) == spec_entry_json(entries[0]) + ",\n"@ + spec_entries_json(
            entries.drop_first(),
        ),
    decreases entries.len(),
{
    if entries.len() == 2 {
        assert(entries.drop_last().len() == 1);
        assert(entries.drop_last()[0] == entries[0]);
        assert(entries.drop_first().len() == 1);
        assert(entries.drop_first()[0] == entries.last());
        assert(spec_entries_json(entries.drop_last()) == spec_entry_json(entries[0]));
        assert(spec_entries_json(entries.drop_first()) == spec_entry_json(entries.last()));
        assert(spec_entries_json(entries) == spec_entries_json(entries.drop_last()) + ",\n"@
            + spec_entry_json(entries.last()));
        assert(spec_entries_json(entries) =~= spec_entry_json(entries[0]) + ",\n"@
            + spec_entries_json(entries.drop_first()));
    } else {
        lemma_entries_json_head(entries.drop_last());
        assert(entries.drop_last().drop_first() =~= entries.drop_first().drop_last());
        assert(entries.drop_last()[0] == entries[0]);
        assert(entries.drop_first().last() == entries.last());
        assert(entries.drop_first().len() >= 2);
        assert(spec_entries_json(entries) == spec_entries_json(entries.drop_last()) + ",\n"@
            + spec_entry_json(entries.last()));
        assert(spec_entries_json(entries.drop_first()) == spec_entries_json(
            entries.drop_first().drop_last(),
        ) + ",\n"@ + spec_entry_json(entries.drop_first().last()));
        assert(spec_entries_json(entries) =~= spec_entry_json(entries[0]) + ",\n"@
            + spec_entries_json(entries.drop_first()));
    }
}

/// Parsing the joined body of a non-empty store, closed by the array
/// terminator, yields every entry's pair in order.
#[verifier::rlimit(100)]
#[verifier::spinoff_prover]
proof fn lemma_parse_entries(entries: Seq<LogEntry>, fuel: nat)
    requires
        entries.len() >= 1,
        fuel >= entries.len(),
    ensures
        parse_entries(spec_entries_json(entries) + "\n]"@, fuel) == Some(entry_pairs(entries)),
    decreases entries.len(),
{
    reveal_strlit("\n]");
    reveal_strlit(",\n");
    let s = spec_entries_json(entries) + "\n]"@;
    if entries.len() == 1 {
        lemma_parse_entry(entries[0], "\n]"@);
        assert(entry_pairs(entries) =~= seq![(entries[0].level, entries[0].message@)]);
    } else {
        lemma_entries_json_head(entries);
        let rest2 = spec_entries_json(entries.drop_first()) + "\n]"@;
        let tail0 = ",\n"@ + rest2;
        assert(s =~= spec_entry_json(entries[0]) + tail0);
        lemma_parse_entry(entries[0], tail0);
        lemma_entries_json_len(entries.drop_first());
        assert(tail0.len() >= 2 + (entries.len() - 1) + 2);
        assert(tail0 != "\n]"@);
        assert(tail0 =~= ",\n"@ + rest2);
        lemma_expect_prefix(",\n"@, rest2);
        lemma_parse_entries(entries.drop_first(), (fuel - 1) as nat);
        assert(seq![(entries[0].level, entries[0].message@)] + entry_pairs(entries.drop_first())
            =~= entry_pairs(entries));
    }
}

/// Round trip: exporting a store and reparsing the document yields
/// exactly the stored `(severity, message)` pairs, in insertion
/// order. An empty store exports as `[]`, which parses back to no
/// pairs.
pub proof fn lemma_export_round_trip(entries: Seq<LogEntry>)
    ensures
        spec_parse(spec_export(entries)) == Some(entry_pairs(entries)),
{
    reveal_strlit("[]");
    reveal_strlit("[\n");
    reveal_strlit("\n]");
    if entries.len() == 0 {
        assert(entry_pairs(entries) =~= Seq::<(LogFormatter, Seq<char>)>::empty());
    } else {
        let body = spec_entries_json(entries);
        let r = body + "\n]"@;
        let s = spec_export(entries);
        assert(s =~= "[\n"@ + r);
        lemma_entries_json_len(entries);
        assert(s.len() >= 2 + entries.len() + 2);
        assert(s != "[]"@);
        lemma_expect_prefix("[\n"@, r);
        lemma_parse_entries(entries, r.len() as nat);
    }
}

} // verus!

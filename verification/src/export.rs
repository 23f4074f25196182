//! Rendering an entry store as a JSON document.
//!
//! The document is an array of objects, one per entry in insertion
//! order, with the keys `level`, `message`, `date` and `file_path`.
//! String values are escaped as JSON demands: quote, backslash and the
//! named control characters by their two-character escapes, the
//! remaining control characters as `\u00..`; an empty store renders as
//! exactly `[]`.

use vstd::prelude::*;
use crate::LogFormatter;
use crate::spec_label;
use crate::formatter::{LogEntry, Logs};
use crate::text::{chars_to_string, dec_digit, push_str_chars};

verus! {

/// The character for one hexadecimal digit, lower case.
pub open spec fn hex_digit(d: int) -> char
    recommends
        0 <= d < 16,
{
    if d < 10 {
        dec_digit(d)
    } else if d == 10 {
        'a'
    } else if d == 11 {
        'b'
    } else if d == 12 {
        'c'
    } else if d == 13 {
        'd'
    } else if d == 14 {
        'e'
    } else {
        'f'
    }
}

/// The JSON escape of one character: quote, backslash and the named
/// control characters become two-character escapes, the remaining
/// control characters a `\u00..` escape, and every other character
/// stands for itself.
pub open spec fn esc_char(c: char) -> Seq<char> {
    if c == '"' {
        seq!['\\', '"']
    } else if c == '\\' {
        seq!['\\', '\\']
    } else if c == '\n' {
        seq!['\\', 'n']
    } else if c == '\r' {
        seq!['\\', 'r']
    } else if c == '\t' {
        seq!['\\', 't']
    } else if c == '\u{0008}' {
        seq!['\\', 'b']
    } else if c == '\u{000C}' {
        seq!['\\', 'f']
    } else if (c as u32) < 0x20 {
        seq!['\\', 'u', '0', '0', hex_digit(c as u32 as int / 16), hex_digit(c as u32 as int % 16)]
    } else {
        seq![c]
    }
}

/// The JSON escape of a whole string body.
pub open spec fn escape(s: Seq<char>) -> Seq<char>
    decreases s.len(),
{
    if s.len() == 0 {
        Seq::empty()
    } else {
        escape(s.drop_last()) + esc_char(s.last())
    }
}

/// The JSON object for one entry, as it stands inside the array.
pub open spec fn spec_entry_json(e: LogEntry) -> Seq<char> {
    "  {\n    \"level\": \""@ + escape(spec_label(e.level)) + "\""@ + ",\n    \"message\": \""@
        + escape(e.message@) + "\""@ + ",\n    \"date\": \""@ + escape(e.date@) + "\""@
        + ",\n    \"file_path\": \""@ + escape(e.file_path@) + "\""@ + "\n  }"@
}

/// The objects of all entries, joined by `,\n`, in insertion order.
pub open spec fn spec_entries_json(entries: Seq<LogEntry>) -> Seq<char>
    decreases entries.len(),
{
    if entries.len() == 0 {
        Seq::empty()
    } else if entries.len() == 1 {
        spec_entry_json(entries[0])
    } else {
        spec_entries_json(entries.drop_last()) + ",\n"@ + spec_entry_json(entries.last())
    }
}

/// The whole document: `[]` for an empty store, else the entry
/// objects wrapped in the array brackets.
pub open spec fn spec_export(entries: Seq<LogEntry>) -> Seq<char> {
    if entries.len() == 0 {
        "[]"@
    } else {
        "[\n"@ + spec_entries_json(entries) + "\n]"@
    }
}

/// Executable hexadecimal digit character, equal to [`hex_digit`].
fn hex_digit_char(d: u32) -> (r: char)
    requires
        d < 16,
    ensures
        r == hex_digit(d as int),
{
    if d == 0 {
        '0'
    } else if d == 1 {
        '1'
    } else if d == 2 {
        '2'
    } else if d == 3 {
        '3'
    } else if d == 4 {
        '4'
    } else if d == 5 {
        '5'
    } else if d == 6 {
        '6'
    } else if d == 7 {
        '7'
    } else if d == 8 {
        '8'
    } else if d == 9 {
        '9'
    } else if d == 10 {
        'a'
    } else if d == 11 {
        'b'
    } else if d == 12 {
        'c'
    } else if d == 13 {
        'd'
    } else if d == 14 {
        'e'
    } else {
        'f'
    }
}

/// Append the JSON escape of every character of `s` to `out`.
fn push_escaped(out: &mut Vec<char>, s: &str)
    ensures
        final(out)@ == old(out)@ + escape(s@),
{
    let n = s.unicode_len();
    let mut i: usize = 0;
    while i < n
        invariant
            n == s@.len(),
            i <= n,
            out@ == old(out)@ + escape(s@.take(i as int)),
        decreases n - i,
    {
        let c = s.get_char(i);
        if c == '"' {
            out.push('\\');
            out.push('"');
        } else if c == '\\' {
            out.push('\\');
            out.push('\\');
        } else if c == '\n' {
            out.push('\\');
            out.push('n');
        } else if c == '\r' {
            out.push('\\');
            out.push('r');
        } else if c == '\t' {
            out.push('\\');
            out.push('t');
        } else if c == '\u{0008}' {
            out.push('\\');
            out.push('b');
        } else if c == '\u{000C}' {
            out.push('\\');
            out.push('f');
        } else if (c as u32) < 0x20 {
            let v = c as u32;
            out.push('\\');
            out.push('u');
            out.push('0');
            out.push('0');
            out.push(hex_digit_char(v / 16));
            out.push(hex_digit_char(v % 16));
        } else {
            out.push(c);
        }
        proof {
            assert(s@.take(i + 1).drop_last() =~= s@.take(i as int));
            assert(s@.take(i + 1).last() == s@[i as int]);
            assert(out@ =~= old(out)@ + escape(s@.take(i + 1)));
        }
        i = i + 1;
    }
    assert(s@.take(n as int) =~= s@);
}

/// Append the JSON object of one entry to `out`.
fn push_entry_json(out: &mut Vec<char>, e: &LogEntry)
    ensures
        final(out)@ == old(out)@ + spec_entry_json(*e),
{
    push_str_chars(out, "  {\n    \"level\": \"");
    push_escaped(out, e.level.label());
    push_str_chars(out, "\"");
    push_str_chars(out, ",\n    \"message\": \"");
    push_escaped(out, e.message.as_str());
    push_str_chars(out, "\"");
    push_str_chars(out, ",\n    \"date\": \"");
    push_escaped(out, e.date.as_str());
    push_str_chars(out, "\"");
    push_str_chars(out, ",\n    \"file_path\": \"");
    push_escaped(out, e.file_path.as_str());
    push_str_chars(out, "\"");
    push_str_chars(out, "\n  }");
    assert(out@ =~= old(out)@ + spec_entry_json(*e));
}

impl Logs {
    /// Render the store as the JSON document: the entries in insertion
    /// order, an empty store as exactly `[]`.
    pub fn format_to_json(&self) -> (r: String)
        ensures
            r@ == spec_export(self.entries@),
    {
        let n = self.entries.len();
        if n == 0 {
            let mut buf: Vec<char> = Vec::new();
            push_str_chars(&mut buf, "[]");
            return chars_to_string(&buf);
        }
        let mut buf: Vec<char> = Vec::new();
        push_str_chars(&mut buf, "[\n");
        let mut i: usize = 0;
        while i < n
            invariant
                n == self.entries@.len(),
                i <= n,
                buf@ == "[\n"@ + spec_entries_json(self.entries@.take(i as int)),
            decreases n - i,
        {
            if i > 0 {
                push_str_chars(&mut buf, ",\n");
            }
            push_entry_json(&mut buf, &self.entries[i]);
            proof {
                assert(self.entries@.take(i + 1).drop_last() =~= self.entries@.take(i as int));
                assert(self.entries@.take(i + 1).last() == self.entries@[i as int]);
                assert(buf@ =~= "[\n"@ + spec_entries_json(self.entries@.take(i + 1)));
            }
            i = i + 1;
        }
        push_str_chars(&mut buf, "\n]");
        proof {
            assert(self.entries@.take(n as int) =~= self.entries@);
            assert(buf@ =~= spec_export(self.entries@));
        }
        chars_to_string(&buf)
    }
}

} // verus!

//! The ordered store of classified log entries.
//!
//! Every accepted line becomes one [`LogEntry`] — category, verbatim
//! message, capture timestamp and originating file — appended to a
//! [`Logs`] store that preserves insertion order.

use vstd::prelude::*;
use crate::LogFormatter;
use crate::classify::{classify, spec_classify};

verus! {

/// One retained log line: its category, the verbatim line text, the
/// RFC 3339 timestamp taken when the line was ingested, and the path
/// of the file it came from.
pub struct LogEntry {
    pub level: LogFormatter,
    pub message: String,
    pub date: String,
    pub file_path: String,
}

impl LogEntry {
    /// Build one entry from its four fields.
    pub fn new(level: LogFormatter, message: String, date: String, file_path: String) -> (r:
        LogEntry)
        ensures
            r.level == level,
            r.message == message,
            r.date == date,
            r.file_path == file_path,
    {
        LogEntry { level, message, date, file_path }
    }

    /// The metadata display line of the entry: the upper-case category
    /// label, a space, and the capture timestamp.
    pub fn metadata_line(&self) -> (r: String)
        ensures
            r@ == spec_label_upper(self.level) + " "@ + self.date@,
    {
        let mut buf: Vec<char> = Vec::new();
        crate::text::push_str_chars(&mut buf, self.level.label_upper());
        crate::text::push_str_chars(&mut buf, " ");
        crate::text::push_str_chars(&mut buf, self.date.as_str());
        crate::text::chars_to_string(&buf)
    }
}

impl Clone for LogEntry {
    /// A clone carries the same four fields.
    fn clone(&self) -> (r: LogEntry)
        ensures
            r == *self,
    {
        LogEntry {
            level: self.level,
            message: self.message.clone(),
            date: self.date.clone(),
            file_path: self.file_path.clone(),
        }
    }
}

/// The upper-case display label of a severity category.
pub open spec fn spec_label_upper(level: LogFormatter) -> Seq<char> {
    match level {
        LogFormatter::Info => "INFO"@,
        LogFormatter::Warning => "WARNING"@,
        LogFormatter::Error => "ERROR"@,
        LogFormatter::Trace => "TRACE"@,
    }
}

impl LogFormatter {
    /// The upper-case display label: `INFO`, `WARNING`, `ERROR` or
    /// `TRACE`.
    pub fn label_upper(&self) -> (r: &'static str)
        ensures
            r@ == spec_label_upper(*self),
    {
        match self {
            LogFormatter::Info => "INFO",
            LogFormatter::Warning => "WARNING",
            LogFormatter::Error => "ERROR",
            LogFormatter::Trace => "TRACE",
        }
    }
}

/// The entry `e` records the accepted line `line` read from the file
/// `path`: the category is the line's classification and the message
/// is the line verbatim. The capture timestamp is whatever the clock
/// gave at ingestion.
pub open spec fn entry_matches(e: LogEntry, line: Seq<char>, path: Seq<char>) -> bool {
    &&& e.level == spec_classify(line)
    &&& e.message@ == line
    &&& e.file_path@ == path
}

/// The entry sequence `post` is `pre` with one entry appended, in
/// order, for each accepted `(line, path)` pair of `lines`.
pub open spec fn extends_with(
    pre: Seq<LogEntry>,
    post: Seq<LogEntry>,
    lines: Seq<(Seq<char>, Seq<char>)>,
) -> bool {
    &&& post.len() == pre.len() + lines.len()
    &&& forall|i: int| 0 <= i < pre.len() ==> post[i] == pre[i]
    &&& forall|i: int|
        0 <= i < lines.len() ==> entry_matches(
            post[pre.len() + i],
            lines[i].0,
            lines[i].1,
        )
}

/// The ordered store of classified entries, with a running count of
/// the lines accepted so far.
pub struct Logs {
    pub total_messages: usize,
    pub entries: Vec<LogEntry>,
}

impl Logs {
    /// The store's invariant: the count equals the number of entries.
    pub open spec fn wf(self) -> bool {
        self.total_messages == self.entries@.len()
    }

    /// A fresh, empty store.
    pub fn new() -> (r: Logs)
        ensures
            r.wf(),
            r.total_messages == 0,
            r.entries@.len() == 0,
    {
        Logs { total_messages: 0, entries: Vec::new() }
    }

    /// Record one accepted line: classify it, stamp the capture time,
    /// and append the entry. Every earlier entry keeps its place, so
    /// insertion order is preserved.
    pub fn analyze_log_line(&mut self, line: &str, file_path: &str)
        requires
            old(self).wf(),
            old(self).total_messages < usize::MAX,
        ensures
            final(self).wf(),
            final(self).total_messages == old(self).total_messages + 1,
            extends_with(
                old(self).entries@,
                final(self).entries@,
                seq![(line@, file_path@)],
            ),
    {
        self.total_messages = self.total_messages + 1;
        let level = classify(line);
        let date = now_rfc3339();
        let entry = LogEntry::new(level, line.to_owned(), date, file_path.to_owned());
        self.entries.push(entry);
    }

    /// The stored entries, read-only, in insertion order.
    pub fn entries(&self) -> (r: &Vec<LogEntry>)
        ensures
            r@ == self.entries@,
    {
        &self.entries
    }
}

/// Appending runs compose: extending with `l1` and then with `l2` is
/// extending with `l1 + l2`, so the `i`-th entry of a whole ingestion
/// run records the `i`-th accepted line.
pub proof fn lemma_extends_with_trans(
    a: Seq<LogEntry>,
    b: Seq<LogEntry>,
    c: Seq<LogEntry>,
    l1: Seq<(Seq<char>, Seq<char>)>,
    l2: Seq<(Seq<char>, Seq<char>)>,
)
    requires
        extends_with(a, b, l1),
        extends_with(b, c, l2),
    ensures
        extends_with(a, c, l1 + l2),
{
    assert forall|i: int| 0 <= i < (l1 + l2).len() implies entry_matches(
        c[a.len() + i],
        (l1 + l2)[i].0,
        (l1 + l2)[i].1,
    ) by {
        if i < l1.len() {
            assert(c[a.len() + i] == b[a.len() + i]);
            assert((l1 + l2)[i] == l1[i]);
        } else {
            assert(c[a.len() + i] == c[b.len() + (i - l1.len())]);
            assert((l1 + l2)[i] == l2[i - l1.len()]);
        }
    }
}

/// Relies on chrono: `Local::now()` reads the clock at the moment of
/// the call and `DateTime::to_rfc3339` formats that instant. The
/// result depends on the clock, so nothing is stated of it.
#[verifier::external_body]
fn now_rfc3339() -> String {
    chrono::Local::now().to_rfc3339()
}

} // verus!

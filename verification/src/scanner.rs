//! Running per-category statistics over a stream of log lines.

use vstd::prelude::*;
use crate::LogFormatter;
use crate::classify::{classify, spec_classify};
use crate::text::{chars_to_string, push_dec, push_str_chars, spec_dec};

verus! {

/// Counters of the lines seen so far: one total and one count per
/// severity category.
#[derive(Clone, Copy)]
pub struct LogStats {
    pub total_messages: usize,
    pub info_messages: usize,
    pub warning_messages: usize,
    pub error_messages: usize,
    pub trace_messages: usize,
}

/// The counters of a [`LogStats`], freed of machine-integer bounds,
/// for stating how a whole ingestion run moves them.
pub struct StatsModel {
    pub total: int,
    pub info: int,
    pub warning: int,
    pub error: int,
    pub trace: int,
}

/// All counters at zero.
pub open spec fn zero_model() -> StatsModel {
    StatsModel { total: 0, info: 0, warning: 0, error: 0, trace: 0 }
}

/// One recorded line: the total rises by one, and so does exactly the
/// counter of the line's category.
pub open spec fn record_model(m: StatsModel, line: Seq<char>) -> StatsModel {
    StatsModel {
        total: m.total + 1,
        info: m.info + if spec_classify(line) == LogFormatter::Info {
            1int
        } else {
            0int
        },
        warning: m.warning + if spec_classify(line) == LogFormatter::Warning {
            1int
        } else {
            0int
        },
        error: m.error + if spec_classify(line) == LogFormatter::Error {
            1int
        } else {
            0int
        },
        trace: m.trace + if spec_classify(line) == LogFormatter::Trace {
            1int
        } else {
            0int
        },
    }
}

/// The counters after recording every line of `lines`, in order,
/// starting from `m`.
pub open spec fn replay_model(m: StatsModel, lines: Seq<Seq<char>>) -> StatsModel
    decreases lines.len(),
{
    if lines.len() == 0 {
        m
    } else {
        replay_model(record_model(m, lines[0]), lines.drop_first())
    }
}

impl LogStats {
    /// The counters of this aggregate as a [`StatsModel`].
    pub open spec fn model(self) -> StatsModel {
        StatsModel {
            total: self.total_messages as int,
            info: self.info_messages as int,
            warning: self.warning_messages as int,
            error: self.error_messages as int,
            trace: self.trace_messages as int,
        }
    }

    /// The aggregate's invariant: the total equals the sum of the four
    /// per-category counters.
    pub open spec fn wf(self) -> bool {
        self.total_messages == self.info_messages + self.warning_messages + self.error_messages
            + self.trace_messages
    }

    /// A fresh aggregate: every counter is zero.
    pub fn new() -> (r: LogStats)
        ensures
            r.wf(),
            r.model() == zero_model(),
            r.total_messages == 0,
            r.info_messages == 0,
            r.warning_messages == 0,
            r.error_messages == 0,
            r.trace_messages == 0,
    {
        LogStats {
            total_messages: 0,
            info_messages: 0,
            warning_messages: 0,
            error_messages: 0,
            trace_messages: 0,
        }
    }

    /// Record one line: the total and the counter of the line's
    /// category each rise by one; the other counters keep their value.
    pub fn analyze_log_line(&mut self, line: &str)
        requires
            old(self).wf(),
            old(self).total_messages < usize::MAX,
        ensures
            final(self).wf(),
            final(self).model() == record_model(old(self).model(), line@),
    {
        self.total_messages = self.total_messages + 1;
        let level = classify(line);
        match level {
            LogFormatter::Info => {
                self.info_messages = self.info_messages + 1;
            },
            LogFormatter::Warning => {
                self.warning_messages = self.warning_messages + 1;
            },
            LogFormatter::Error => {
                self.error_messages = self.error_messages + 1;
            },
            LogFormatter::Trace => {
                self.trace_messages = self.trace_messages + 1;
            },
        }
    }

    /// A snapshot of the counters as they stand.
    pub fn snapshot(&self) -> (r: LogStats)
        ensures
            r == *self,
    {
        *self
    }

    /// The textual report: five lines, in fixed order, each a fixed
    /// label followed by the decimal value of one counter.
    pub fn report_lines(&self) -> (r: Vec<String>)
        ensures
            r@.len() == 5,
            r@[0]@ == "Total messages: "@ + spec_dec(self.total_messages as nat),
            r@[1]@ == "Info messages: "@ + spec_dec(self.info_messages as nat),
            r@[2]@ == "Warning messages: "@ + spec_dec(self.warning_messages as nat),
            r@[3]@ == "Error messages: "@ + spec_dec(self.error_messages as nat),
            r@[4]@ == "Trace messages: "@ + spec_dec(self.trace_messages as nat),
    {
        let mut out: Vec<String> = Vec::new();
        out.push(stat_line("Total messages: ", self.total_messages));
        out.push(stat_line("Info messages: ", self.info_messages));
        out.push(stat_line("Warning messages: ", self.warning_messages));
        out.push(stat_line("Error messages: ", self.error_messages));
        out.push(stat_line("Trace messages: ", self.trace_messages));
        out
    }
}

/// One report line: the label followed by the decimal value.
fn stat_line(label: &str, n: usize) -> (r: String)
    ensures
        r@ == label@ + spec_dec(n as nat),
{
    let mut buf: Vec<char> = Vec::new();
    push_str_chars(&mut buf, label);
    push_dec(&mut buf, n);
    chars_to_string(&buf)
}

/// Replaying lines onto any starting counters raises the total, and the
/// sum of the four per-category counters, by exactly the number of
/// lines.
pub proof fn lemma_replay_counts(m: StatsModel, lines: Seq<Seq<char>>)
    ensures
        replay_model(m, lines).total == m.total + lines.len(),
        replay_model(m, lines).info + replay_model(m, lines).warning + replay_model(
            m,
            lines,
        ).error + replay_model(m, lines).trace == m.info + m.warning + m.error + m.trace
            + lines.len(),
    decreases lines.len(),
{
    if lines.len() > 0 {
        lemma_replay_counts(record_model(m, lines[0]), lines.drop_first());
    }
}

/// For any sequence of `N` lines recorded into a fresh aggregate, the
/// total is `N`, and the four per-category counters sum to `N`.
pub proof fn lemma_stats_totals(lines: Seq<Seq<char>>)
    ensures
        replay_model(zero_model(), lines).total == lines.len(),
        replay_model(zero_model(), lines).info + replay_model(zero_model(), lines).warning
            + replay_model(zero_model(), lines).error + replay_model(zero_model(), lines).trace
            == lines.len(),
{
    lemma_replay_counts(zero_model(), lines);
}

} // verus!

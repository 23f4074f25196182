//! A small log-analysis library: it classifies plain-text log lines into
//! severity categories, keeps running per-category statistics, stores the
//! classified entries in insertion order, renders them as a JSON document,
//! and models the state of an interactive dashboard over those aggregates.

use vstd::prelude::*;

pub mod classify;
pub mod export;
pub mod formatter;
pub mod parse;
pub mod scanner;
pub mod text;
pub mod vizualizer;

verus! {

/// Severity category assigned to every log line.
#[derive(Clone, Copy, PartialEq, Eq, Structural, Debug)]
pub enum LogFormatter {
    Info,
    Warning,
    Error,
    Trace,
}

impl LogFormatter {
    /// The JSON label of the category: `Info`, `Warning`, `Error` or `Trace`.
    pub fn label(&self) -> (r: &'static str)
        ensures
            r@ == spec_label(*self),
    {
        match self {
            LogFormatter::Info => "Info",
            LogFormatter::Warning => "Warning",
            LogFormatter::Error => "Error",
            LogFormatter::Trace => "Trace",
        }
    }
}

/// The JSON label of a severity category.
pub open spec fn spec_label(level: LogFormatter) -> Seq<char> {
    match level {
        LogFormatter::Info => "Info"@,
        LogFormatter::Warning => "Warning"@,
        LogFormatter::Error => "Error"@,
        LogFormatter::Trace => "Trace"@,
    }
}

} // verus!

use astra_logger_rs::LogFormatter;
use astra_logger_rs::classify::{classify, parse_filter, InvalidArgument};
use astra_logger_rs::formatter::{LogEntry, Logs};
use astra_logger_rs::scanner::LogStats;

#[test]
fn test_log_entry_new() {
    let date = chrono::Local::now();
    let log_entry = LogEntry::new(
        LogFormatter::Info,
        String::from("Test message"),
        date.to_rfc3339(),
        String::from("/test/path"),
    );

    assert_eq!(log_entry.message, "Test message");
    assert_eq!(log_entry.date, date.to_rfc3339());
    assert_eq!(log_entry.file_path, String::from("/test/path"));
}

#[test]
fn test_logs_new() {
    let logs = Logs::new();
    assert_eq!(logs.total_messages, 0);
    assert!(logs.entries.is_empty());
}

#[test]
fn test_log_stats_new() {
    let stats = LogStats::new();
    assert_eq!(stats.total_messages, 0);
    assert_eq!(stats.info_messages, 0);
    assert_eq!(stats.warning_messages, 0);
    assert_eq!(stats.error_messages, 0);
    assert_eq!(stats.trace_messages, 0);
}

#[test]
fn test_analyze_log_line() {
    let mut logs = Logs::new();
    let file_path = "/test/path";

    logs.analyze_log_line("Info: This is an info message", file_path);
    assert_eq!(logs.total_messages, 1);

    logs.analyze_log_line("Warning: This is a warning message", file_path);
    assert_eq!(logs.total_messages, 2);

    logs.analyze_log_line("Error: This is an error message", file_path);
    assert_eq!(logs.total_messages, 3);

    logs.analyze_log_line("This is a trace message", file_path);
    assert_eq!(logs.total_messages, 4);
}

#[test]
fn test_format_to_json() {
    let logs = Logs::new();
    let result = logs.format_to_json();
    assert!(result.contains("[]"));
    assert_eq!(result, "[]");
}

#[test]
fn test_log_stats_analyze_log_line() {
    let mut stats = LogStats::new();

    stats.analyze_log_line("Info: This is an info message");
    assert_eq!(stats.total_messages, 1);
    assert_eq!(stats.info_messages, 1);

    stats.analyze_log_line("Warning: This is a warning message");
    assert_eq!(stats.total_messages, 2);
    assert_eq!(stats.warning_messages, 1);

    stats.analyze_log_line("Error: This is an error message");
    assert_eq!(stats.total_messages, 3);
    assert_eq!(stats.error_messages, 1);

    stats.analyze_log_line("This is a trace message");
    assert_eq!(stats.total_messages, 4);
    assert_eq!(stats.trace_messages, 1);
}

#[test]
fn classify_matches_keywords_case_insensitively() {
    assert_eq!(classify("INFO: start"), LogFormatter::Info);
    assert_eq!(classify("some iNfO in the middle"), LogFormatter::Info);
    assert_eq!(classify("WARNING: low disk"), LogFormatter::Warning);
    assert_eq!(classify("a warning came up"), LogFormatter::Warning);
    assert_eq!(classify("ERROR: crash"), LogFormatter::Error);
    assert_eq!(classify("hard error"), LogFormatter::Error);
    assert_eq!(classify("debug trace only"), LogFormatter::Trace);
    assert_eq!(classify(""), LogFormatter::Trace);
}

#[test]
fn classify_uses_priority_order() {
    // A line holding several keywords goes to the earliest in the
    // fixed order info, warning, error.
    assert_eq!(classify("error while logging info"), LogFormatter::Info);
    assert_eq!(classify("warning about an error"), LogFormatter::Warning);
    assert_eq!(classify("ERROR only, nothing else"), LogFormatter::Error);
}

#[test]
fn classify_needs_the_whole_keyword() {
    assert_eq!(classify("inf orm at ion"), LogFormatter::Trace);
    assert_eq!(classify("warn err"), LogFormatter::Trace);
}

#[test]
fn stats_scenario_counts_each_category() {
    let lines = ["INFO: start", "WARNING: low disk", "ERROR: crash", "debug trace only"];
    let mut stats = LogStats::new();
    for line in lines {
        stats.analyze_log_line(line);
    }
    assert_eq!(stats.total_messages, 4);
    assert_eq!(stats.info_messages, 1);
    assert_eq!(stats.warning_messages, 1);
    assert_eq!(stats.error_messages, 1);
    assert_eq!(stats.trace_messages, 1);
}

#[test]
fn entry_store_preserves_insertion_order() {
    let lines = ["INFO: start", "WARNING: low disk", "ERROR: crash", "debug trace only"];
    let mut logs = Logs::new();
    for line in lines {
        logs.analyze_log_line(line, "/var/log/app.log");
    }
    assert_eq!(logs.entries().len(), 4);
    for (i, line) in lines.iter().enumerate() {
        assert_eq!(logs.entries()[i].message, *line);
        assert_eq!(logs.entries()[i].file_path, "/var/log/app.log");
    }
    assert_eq!(logs.entries[0].level, LogFormatter::Info);
    assert_eq!(logs.entries[1].level, LogFormatter::Warning);
    assert_eq!(logs.entries[2].level, LogFormatter::Error);
    assert_eq!(logs.entries[3].level, LogFormatter::Trace);
}

#[test]
fn parse_filter_accepts_each_label_and_rejects_the_rest() {
    assert_eq!(parse_filter(""), Ok(None));
    assert_eq!(parse_filter("info"), Ok(Some(LogFormatter::Info)));
    assert_eq!(parse_filter("Warning"), Ok(Some(LogFormatter::Warning)));
    assert_eq!(parse_filter("ERROR"), Ok(Some(LogFormatter::Error)));
    assert_eq!(parse_filter("tRaCe"), Ok(Some(LogFormatter::Trace)));
    assert_eq!(parse_filter("verbose"), Err(InvalidArgument));
    assert_eq!(parse_filter("error "), Err(InvalidArgument));
}

#[test]
fn report_lines_are_fixed_labels_and_counts() {
    let mut stats = LogStats::new();
    stats.analyze_log_line("INFO: one");
    stats.analyze_log_line("INFO: two");
    stats.analyze_log_line("ERROR: boom");
    let lines = stats.report_lines();
    assert_eq!(
        lines,
        vec![
            String::from("Total messages: 3"),
            String::from("Info messages: 2"),
            String::from("Warning messages: 0"),
            String::from("Error messages: 1"),
            String::from("Trace messages: 0"),
        ]
    );
}

#[test]
fn snapshot_carries_the_counters() {
    let mut stats = LogStats::new();
    stats.analyze_log_line("INFO: one");
    stats.analyze_log_line("ERROR: two");
    let snap = stats.snapshot();
    assert_eq!(snap.total_messages, 2);
    assert_eq!(snap.info_messages, 1);
    assert_eq!(snap.error_messages, 1);
    assert_eq!(snap.warning_messages, 0);
    assert_eq!(snap.trace_messages, 0);
}

#[test]
fn metadata_line_shows_label_and_timestamp() {
    let entry = LogEntry::new(
        LogFormatter::Error,
        String::from("ERROR: crash"),
        String::from("2024-05-01T10:00:00+00:00"),
        String::from("/var/log/app.log"),
    );
    assert_eq!(entry.metadata_line(), "ERROR 2024-05-01T10:00:00+00:00");
    let quiet = LogEntry::new(
        LogFormatter::Trace,
        String::from("noise"),
        String::from("t"),
        String::from("p"),
    );
    assert_eq!(quiet.metadata_line(), "TRACE t");
}

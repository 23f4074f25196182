use astra_logger_rs::LogFormatter;
use astra_logger_rs::formatter::{LogEntry, Logs};
use astra_logger_rs::parse::parse_exported;

#[test]
fn export_empty_store_is_the_empty_array() {
    assert_eq!(Logs::new().format_to_json(), "[]");
}

#[test]
fn export_layout_is_stable() {
    let mut logs = Logs::new();
    logs.entries.push(LogEntry::new(
        LogFormatter::Info,
        String::from("m"),
        String::from("d"),
        String::from("p"),
    ));
    logs.total_messages = 1;
    let expected = "[\n  {\n    \"level\": \"Info\",\n    \"message\": \"m\",\n    \"date\": \"d\",\n    \"file_path\": \"p\"\n  }\n]";
    assert_eq!(logs.format_to_json(), expected);
}

#[test]
fn export_escapes_special_characters() {
    let mut logs = Logs::new();
    logs.entries.push(LogEntry::new(
        LogFormatter::Trace,
        String::from("a\"b\\c\nd\te\u{1}f"),
        String::from("d"),
        String::from("p"),
    ));
    logs.total_messages = 1;
    let json = logs.format_to_json();
    assert!(json.contains("a\\\"b\\\\c\\nd\\te\\u0001f"));
    let value: serde_json::Value = serde_json::from_str(&json).unwrap();
    let first = &value.as_array().unwrap()[0];
    assert_eq!(
        first.get("message").unwrap().as_str().unwrap(),
        "a\"b\\c\nd\te\u{1}f"
    );
}

#[test]
fn reparse_through_the_library_recovers_the_pairs() {
    let mut logs = Logs::new();
    logs.analyze_log_line("INFO: plain", "/a.log");
    logs.analyze_log_line("weird \"msg\" with \\ and \u{7}", "/a.log");
    let json = logs.format_to_json();
    let pairs = parse_exported(&json).unwrap();
    assert_eq!(pairs.len(), 2);
    assert_eq!(pairs[0].0, LogFormatter::Info);
    assert_eq!(pairs[0].1, "INFO: plain");
    assert_eq!(pairs[1].0, LogFormatter::Trace);
    assert_eq!(pairs[1].1, "weird \"msg\" with \\ and \u{7}");

    assert_eq!(parse_exported("[]").unwrap().len(), 0);
    assert!(parse_exported("not a document").is_none());
    assert!(parse_exported("").is_none());
}

#[test]
fn export_reparse_round_trip_preserves_pairs() {
    let mut logs = Logs::new();
    logs.analyze_log_line("INFO: plain", "/a.log");
    logs.analyze_log_line("has \"quotes\" and \\backslashes\\", "/a.log");
    logs.analyze_log_line("tab\there, ctrl\u{1}char, caf\u{e9}", "/b.log");
    logs.analyze_log_line("ERROR: crash", "/b.log");
    let json = logs.format_to_json();

    let value: serde_json::Value = serde_json::from_str(&json).unwrap();
    let arr = value.as_array().unwrap();
    assert_eq!(arr.len(), 4);
    let expected_levels = ["Info", "Trace", "Trace", "Error"];
    for (i, entry) in logs.entries.iter().enumerate() {
        let obj = arr[i].as_object().unwrap();
        assert_eq!(
            obj.get("level").unwrap().as_str().unwrap(),
            expected_levels[i]
        );
        assert_eq!(obj.get("message").unwrap().as_str().unwrap(), entry.message);
        assert_eq!(obj.get("date").unwrap().as_str().unwrap(), entry.date);
        assert_eq!(
            obj.get("file_path").unwrap().as_str().unwrap(),
            entry.file_path
        );
    }
}

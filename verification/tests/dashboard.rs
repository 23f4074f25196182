use astra_logger_rs::LogFormatter;
use astra_logger_rs::formatter::Logs;
use astra_logger_rs::scanner::LogStats;
use astra_logger_rs::vizualizer::{App, EllipticCurve, InputEvent, RunState};

fn scenario_aggregates() -> (Logs, LogStats) {
    let lines = ["INFO: start", "WARNING: low disk", "ERROR: crash", "debug trace only"];
    let mut logs = Logs::new();
    let mut stats = LogStats::new();
    for line in lines {
        logs.analyze_log_line(line, "/var/log/app.log");
        stats.analyze_log_line(line);
    }
    (logs, stats)
}

#[test]
fn test_elliptic_curve_calculate_points() {
    let curve = EllipticCurve::new(1000, -1000);
    let points = curve.calculate_points(-2000, 2000, 500);
    assert!(!points.is_empty());
}

#[test]
fn curve_points_are_exact_on_a_simple_grid() {
    let curve = EllipticCurve::new(0, 0);
    let points = curve.calculate_points(0, 1000, 1000);
    assert_eq!(points, vec![(0, 0), (0, 0), (1000, 1000), (1000, -1000)]);
}

#[test]
fn negative_curve_values_emit_no_points() {
    let curve = EllipticCurve::new(0, -1000000);
    let points = curve.calculate_points(0, 500, 100);
    assert!(points.is_empty());
}

#[test]
fn derived_points_are_deterministic_and_guarded() {
    let (_, stats) = scenario_aggregates();
    let app1 = App::new(Logs::new(), stats, None);
    let app2 = App::new(Logs::new(), stats, None);
    assert_eq!(app1.points, app2.points);
    assert!(!app1.points.is_empty());

    let empty_app = App::new(Logs::new(), LogStats::new(), None);
    assert!(empty_app.points.is_empty());
}

#[test]
fn quit_terminates_from_any_tab_and_restores_once() {
    for presses in 0..3 {
        let mut app = App::new(Logs::new(), LogStats::new(), None);
        for _ in 0..presses {
            let cleanup = app.handle_key(InputEvent::NextTab);
            assert!(!cleanup);
        }
        assert_eq!(app.state, RunState::Running);
        let cleanup = app.handle_key(InputEvent::Quit);
        assert!(cleanup);
        assert_eq!(app.state, RunState::Terminated);
        assert!(!app.handle_key(InputEvent::Quit));
        assert!(!app.handle_key(InputEvent::NextTab));
        assert_eq!(app.state, RunState::Terminated);
    }
}

#[test]
fn tab_key_cycles_views_and_other_keys_do_nothing() {
    let mut app = App::new(Logs::new(), LogStats::new(), None);
    assert_eq!(app.tab, 0);
    app.handle_key(InputEvent::NextTab);
    assert_eq!(app.tab, 1);
    app.handle_key(InputEvent::Other);
    assert_eq!(app.tab, 1);
    assert_eq!(app.state, RunState::Running);
    app.handle_key(InputEvent::NextTab);
    assert_eq!(app.tab, 0);
}

#[test]
fn filter_error_shows_exactly_the_error_entry() {
    let (logs, stats) = scenario_aggregates();
    let app = App::new(logs, stats, Some(LogFormatter::Error));
    let shown = app.filtered_entries(LogFormatter::Error);
    assert_eq!(shown.len(), 1);
    assert_eq!(shown[0].message, "ERROR: crash");

    let mut across_panes = 0;
    for level in [
        LogFormatter::Info,
        LogFormatter::Warning,
        LogFormatter::Error,
        LogFormatter::Trace,
    ] {
        across_panes += app.filtered_entries(level).len();
    }
    assert_eq!(across_panes, 4);
}

#[test]
fn tab_titles_are_fixed() {
    assert_eq!(App::tab_titles(), vec!["Logs", "Elliptic Curve"]);
}

use remote_open_power::logging::{
    disk_line, normalized_lines, report_lines, sanitize_line, sink_line, Level, LogQueue,
    LogReceiver, MAX_LOG_LINE_CHARS, MAX_TERMINAL_LOGS,
};

#[test]
fn terminal_log_queue_is_bounded_and_reports_omissions() {
    let mut queue = LogQueue::default();
    for index in 0..MAX_TERMINAL_LOGS + 3 {
        queue.push(index.to_string());
    }
    let lines = queue.drain();
    assert_eq!(lines.len(), MAX_TERMINAL_LOGS + 1);
    assert!(lines[0].contains("3 terminal log lines omitted"));
    assert!(queue.drain().is_empty());
}

#[test]
fn terminal_sink_retains_errors_and_deferred_panic_reports() {
    let mut receiver = LogReceiver {
        queue: LogQueue::default(),
    };
    let mut emergency = LogQueue::default();
    receiver.queue.push(sink_line(Level::Error, "terminal error marker"));
    emergency.push(sink_line(Level::Fatal, "bounded test report"));
    let lines = receiver.drain(&mut emergency);
    assert!(lines.iter().any(|line| line.contains("terminal error marker")));
    assert!(lines.iter().any(|line| line.contains("bounded test report")));
    assert!(receiver.drain(&mut emergency).is_empty());
}

#[test]
fn service_logs_use_timestamped_sequence_and_standard_levels() {
    for (level, name) in [
        (Level::Info, "INFO"),
        (Level::Warn, "WARN"),
        (Level::Error, "ERROR"),
        (Level::Fatal, "FATAL"),
    ] {
        assert_eq!(level.as_str(), name);
        let line = disk_line("2024-01-01 00:00:00", level, "started");
        assert!(line.starts_with("2024-01-01 00:00:00"));
        assert!(line.contains(name), "missing level {name}");
        assert!(line.contains("started"));
    }
    let lines = report_lines("cause=test\ndetail=full");
    assert!(lines.iter().any(|line| line.contains("report cause=test")));
    assert!(lines.iter().any(|line| line.contains("report detail=full")));
}

#[test]
fn lines_hold_no_control_character_and_end() {
    assert!(!sanitize_line("a\u{1b}[31mb\tc").chars().any(|c| c.is_control()));
    assert!(sanitize_line(&"x".repeat(5_000)).chars().count() <= MAX_LOG_LINE_CHARS + 16);
    assert_eq!(normalized_lines("one\ntwo").len(), 2);
    assert_eq!(sanitize_line("plain"), "plain");
    assert_eq!(sink_line(Level::Warn, "limited"), "WARN limited");
}

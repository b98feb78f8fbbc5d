use dtui::logs::LogEntry;

#[test]
fn test_parse_log_entry_valid() {
    let log_line = "2025-10-28T12:34:56.789Z Hello world";
    let entry = LogEntry::parse(log_line).expect("Should parse valid log line");

    assert_eq!(entry.message, "Hello world");
    assert_eq!(entry.timestamp.year, 2025);
    assert_eq!(entry.timestamp.month, 10);
    assert_eq!(entry.timestamp.day, 28);
}

#[test]
fn test_parse_log_entry_valid_time_fields() {
    let log_line = "2025-10-28T12:34:56.789Z Hello world";
    let entry = LogEntry::parse(log_line).expect("Should parse valid log line");

    assert_eq!(entry.timestamp.hour, 12);
    assert_eq!(entry.timestamp.minute, 34);
    assert_eq!(entry.timestamp.second, 56);
    assert_eq!(entry.timestamp.nanosecond, 789_000_000);
}

#[test]
fn test_parse_log_entry_offset_converted_to_utc() {
    let log_line = "2025-10-28T12:34:56+02:00 shifted";
    let entry = LogEntry::parse(log_line).expect("Should parse offset log line");

    assert_eq!(entry.message, "shifted");
    assert_eq!(entry.timestamp.hour, 10);
}

#[test]
fn test_parse_log_entry_with_multiple_spaces() {
    let log_line = "2025-10-28T12:34:56.789Z Message with   multiple spaces";
    let entry = LogEntry::parse(log_line).expect("Should parse log line with multiple spaces");

    assert_eq!(entry.message, "Message with   multiple spaces");
}

#[test]
fn test_parse_log_entry_invalid_timestamp() {
    let log_line = "invalid-timestamp Message";
    let entry = LogEntry::parse(log_line);

    assert!(entry.is_none(), "Should return None for invalid timestamp");
}

#[test]
fn test_parse_log_entry_no_space() {
    let log_line = "2025-10-28T12:34:56.789Z";
    let entry = LogEntry::parse(log_line);

    assert!(
        entry.is_none(),
        "Should return None when no space separator"
    );
}

#[test]
fn test_parse_log_entry_empty_message() {
    let log_line = "2025-10-28T12:34:56.789Z ";
    let entry = LogEntry::parse(log_line).expect("Should parse log line with empty message");

    assert_eq!(entry.message, "");
}

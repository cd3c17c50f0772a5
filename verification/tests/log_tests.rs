use anime_file_manager::logs::{
    add_log, add_log_entry, clear_logs, create_log_store, get_logs, push_entry, LogEntry,
    LogLevel, MAX_LOGS,
};

fn entry(id: usize) -> LogEntry {
    LogEntry {
        id: id.to_string(),
        timestamp: "2024-01-02 03:04:05 UTC".to_string(),
        level: LogLevel::INFO,
        message: format!("message {}", id),
        source: None,
    }
}

#[test]
fn new_store_is_empty() {
    let store = create_log_store();
    assert_eq!(get_logs(&store).len(), 0);
}

#[test]
fn entries_come_out_oldest_first() {
    let mut store = create_log_store();
    push_entry(&mut store, entry(1));
    push_entry(&mut store, entry(2));
    push_entry(&mut store, entry(3));
    let logs = get_logs(&store);
    assert_eq!(logs.len(), 3);
    assert_eq!(logs[0].id, "1");
    assert_eq!(logs[1].id, "2");
    assert_eq!(logs[2].id, "3");
    assert_eq!(logs[1].message, "message 2");
    assert_eq!(logs[1].timestamp, "2024-01-02 03:04:05 UTC");
}

#[test]
fn full_store_drops_its_oldest_entry() {
    let mut store = create_log_store();
    for i in 0..MAX_LOGS {
        push_entry(&mut store, entry(i));
    }
    assert_eq!(get_logs(&store).len(), MAX_LOGS);
    assert_eq!(get_logs(&store)[0].id, "0");
    push_entry(&mut store, entry(MAX_LOGS));
    let logs = get_logs(&store);
    assert_eq!(logs.len(), MAX_LOGS);
    assert_eq!(logs[0].id, "1");
    assert_eq!(logs[MAX_LOGS - 1].id, MAX_LOGS.to_string());
    push_entry(&mut store, entry(MAX_LOGS + 1));
    let logs = get_logs(&store);
    assert_eq!(logs.len(), MAX_LOGS);
    assert_eq!(logs[0].id, "2");
}

#[test]
fn the_bound_is_a_thousand() {
    assert_eq!(MAX_LOGS, 1000);
}

#[test]
fn clearing_empties_the_store() {
    let mut store = create_log_store();
    push_entry(&mut store, entry(1));
    clear_logs(&mut store);
    assert_eq!(get_logs(&store).len(), 0);
    push_entry(&mut store, entry(2));
    assert_eq!(get_logs(&store)[0].id, "2");
}

#[test]
fn added_entry_carries_level_message_and_source() {
    let mut store = create_log_store();
    add_log_entry(&mut store, LogLevel::ERROR, "it broke".to_string(), Some("batch".to_string()));
    add_log_entry(&mut store, LogLevel::DEBUG, "detail".to_string(), None);
    let logs = get_logs(&store);
    assert_eq!(logs.len(), 2);
    assert!(matches!(logs[0].level, LogLevel::ERROR));
    assert_eq!(logs[0].message, "it broke");
    assert_eq!(logs[0].source, Some("batch".to_string()));
    assert!(matches!(logs[1].level, LogLevel::DEBUG));
    assert_eq!(logs[1].source, None);
}

#[test]
fn added_entries_have_identifiers_of_their_own() {
    let mut store = create_log_store();
    add_log_entry(&mut store, LogLevel::INFO, "a".to_string(), None);
    add_log_entry(&mut store, LogLevel::INFO, "a".to_string(), None);
    let logs = get_logs(&store);
    assert_eq!(logs[0].id.len(), 36);
    assert_eq!(logs[1].id.len(), 36);
    assert_ne!(logs[0].id, logs[1].id);
}

#[test]
fn added_entry_has_a_time_stamp_of_the_fixed_shape() {
    let mut store = create_log_store();
    add_log_entry(&mut store, LogLevel::INFO, "a".to_string(), None);
    let stamp = get_logs(&store)[0].timestamp.clone();
    let bytes = stamp.as_bytes();
    assert_eq!(bytes.len(), 23);
    for (i, b) in bytes.iter().enumerate() {
        match i {
            4 | 7 => assert_eq!(*b, b'-'),
            10 | 19 => assert_eq!(*b, b' '),
            13 | 16 => assert_eq!(*b, b':'),
            20 => assert_eq!(*b, b'U'),
            21 => assert_eq!(*b, b'T'),
            22 => assert_eq!(*b, b'C'),
            _ => assert!(b.is_ascii_digit()),
        }
    }
    assert!(stamp.as_str() > "2024");
}

#[test]
fn levels_are_named_in_any_case() {
    let mut store = create_log_store();
    for name in ["warn", "Error", "DEBUG", "info", "Info", "bogus", ""] {
        add_log(&mut store, name, "m".to_string(), None);
    }
    let logs = get_logs(&store);
    assert!(matches!(logs[0].level, LogLevel::WARN));
    assert!(matches!(logs[1].level, LogLevel::ERROR));
    assert!(matches!(logs[2].level, LogLevel::DEBUG));
    assert!(matches!(logs[3].level, LogLevel::INFO));
    assert!(matches!(logs[4].level, LogLevel::INFO));
    assert!(matches!(logs[5].level, LogLevel::INFO));
    assert!(matches!(logs[6].level, LogLevel::INFO));
}

#[test]
fn level_names() {
    assert_eq!(LogLevel::INFO.name(), "INFO");
    assert_eq!(LogLevel::WARN.name(), "WARN");
    assert_eq!(LogLevel::ERROR.name(), "ERROR");
    assert_eq!(LogLevel::DEBUG.name(), "DEBUG");
    assert!(matches!(LogLevel::from_upper("WARN"), LogLevel::WARN));
    assert!(matches!(LogLevel::from_upper("warn"), LogLevel::INFO));
    assert!(matches!(LogLevel::from_upper("TRACE"), LogLevel::INFO));
}

#[test]
fn length_of_the_store() {
    let mut store = create_log_store();
    assert_eq!(store.len(), 0);
    push_entry(&mut store, entry(1));
    assert_eq!(store.len(), 1);
    for i in 0..(MAX_LOGS + 5) {
        push_entry(&mut store, entry(i));
    }
    assert_eq!(store.len(), MAX_LOGS);
}

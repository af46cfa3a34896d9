use rustitles::logging::{
    append_log_entry, flush_log_buffer, log_wait, should_flush, LogMessage,
    LOG_FLUSH_INTERVAL_NANOS,
};
use std::collections::VecDeque;

#[test]
fn levels_choose_the_message_kind() {
    assert!(matches!(LogMessage::from_level("WARN", "w"), LogMessage::Warn(m) if m == "w"));
    assert!(matches!(LogMessage::from_level("ERROR", "e"), LogMessage::Error(m) if m == "e"));
    assert!(matches!(LogMessage::from_level("DEBUG", "d"), LogMessage::Debug(m) if m == "d"));
    assert!(matches!(LogMessage::from_level("TRACE", "t"), LogMessage::Info(m) if m == "t"));
}

#[test]
fn entries_carry_level_and_timestamp() {
    let mut buffer = VecDeque::new();
    assert!(!append_log_entry(&mut buffer, LogMessage::Warn("disk".to_string()), "2024-01-02 03:04:05"));
    assert_eq!(buffer[0], "[WARN 2024-01-02 03:04:05] disk");
    assert!(append_log_entry(&mut buffer, LogMessage::Shutdown, "now"));
    assert_eq!(buffer.len(), 1);
    assert!(!append_log_entry(&mut buffer, LogMessage::Info("hello".to_string()), "2024-01-02 03:04:06"));
    assert_eq!(buffer.len(), 2);
    assert_eq!(buffer[1], "[INFO 2024-01-02 03:04:06] hello");
    assert_eq!(flush_log_buffer(&mut buffer).lines().count(), 2);
}

#[test]
fn waiting_and_flushing_follow_the_interval() {
    assert_eq!(log_wait(3, 40_000_000), LOG_FLUSH_INTERVAL_NANOS - 40_000_000);
    assert_eq!(log_wait(3, 100_000_000), 0);
    assert!(should_flush(10, 0));
    assert!(should_flush(1, 100_000_000));
    assert!(!should_flush(1, 99_999_999));
    assert!(!should_flush(0, 1_000_000_000));
}

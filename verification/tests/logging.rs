use rustitles::logging::{flush_log_buffer, log_wait, LOG_FLUSH_INTERVAL_NANOS};
use std::collections::VecDeque;
use std::time::Duration;

#[test]
fn idle_logger_waits_after_the_flush_deadline() {
    assert_eq!(
        log_wait(0, Duration::from_secs(10).as_nanos()),
        LOG_FLUSH_INTERVAL_NANOS
    );
    assert_eq!(log_wait(1, Duration::from_secs(10).as_nanos()), 0);
    assert_eq!(log_wait(10, Duration::ZERO.as_nanos()), 0);
    let mut buffer: VecDeque<String> = VecDeque::from(["first".to_string(), "second".to_string()]);
    let output = flush_log_buffer(&mut buffer);
    assert_eq!(output.as_bytes(), b"first\nsecond\n");
    assert!(buffer.is_empty());
}

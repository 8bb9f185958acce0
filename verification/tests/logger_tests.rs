use whispercat::logger::{LogEntry, LogLevel, StructuredLogger};

#[test]
fn test_log_level_colors() {
    let info_color = LogLevel::Info.color();
    let success_color = LogLevel::Success.color();
    let warning_color = LogLevel::Warning.color();
    let error_color = LogLevel::Error.color();

    assert_ne!(info_color, success_color);
    assert_ne!(success_color, warning_color);
    assert_ne!(warning_color, error_color);
}

#[test]
fn test_log_level_icons() {
    assert_eq!(LogLevel::Info.icon(), "\u{2139}");
    assert_eq!(LogLevel::Success.icon(), "\u{2713}");
    assert_eq!(LogLevel::Warning.icon(), "\u{26A0}");
    assert_eq!(LogLevel::Error.icon(), "\u{2717}");
}

#[test]
fn test_log_level_prefixes() {
    assert_eq!(LogLevel::Info.prefix(), "INFO");
    assert_eq!(LogLevel::Success.prefix(), "SUCCESS");
    assert_eq!(LogLevel::Warning.prefix(), "WARNING");
    assert_eq!(LogLevel::Error.prefix(), "ERROR");
}

#[test]
fn test_log_entry_creation() {
    let entry = LogEntry::info("Test message".to_string());
    assert_eq!(entry.level, LogLevel::Info);
    assert_eq!(entry.message, "Test message");
}

#[test]
fn test_logger_capacity() {
    let mut logger = StructuredLogger::with_capacity(3);
    logger.info("Message 1".to_string());
    logger.info("Message 2".to_string());
    logger.info("Message 3".to_string());
    logger.info("Message 4".to_string());

    assert_eq!(logger.entries().len(), 3);
    assert_eq!(logger.entries()[0].message, "Message 2");
}

#[test]
fn test_log_levels() {
    let mut logger = StructuredLogger::new();
    logger.info("Info".to_string());
    logger.success("Success".to_string());
    logger.warning("Warning".to_string());
    logger.error("Error".to_string());

    assert_eq!(logger.entries().len(), 4);
    assert_eq!(logger.entries()[0].level, LogLevel::Info);
    assert_eq!(logger.entries()[1].level, LogLevel::Success);
    assert_eq!(logger.entries()[2].level, LogLevel::Warning);
    assert_eq!(logger.entries()[3].level, LogLevel::Error);
}

#[test]
fn test_structured_logger_creation() {
    let logger = StructuredLogger::new();
    assert_eq!(logger.entries().len(), 0);
}

#[test]
fn test_structured_logger_add_entries() {
    let mut logger = StructuredLogger::new();

    logger.info("Info message".to_string());
    logger.success("Success message".to_string());
    logger.warning("Warning message".to_string());
    logger.error("Error message".to_string());

    assert_eq!(logger.entries().len(), 4);
}

#[test]
fn test_structured_logger_entry_levels() {
    let mut logger = StructuredLogger::new();

    logger.info("Info".to_string());
    logger.success("Success".to_string());
    logger.warning("Warning".to_string());
    logger.error("Error".to_string());

    let entries = logger.entries();
    assert_eq!(entries[0].level, LogLevel::Info);
    assert_eq!(entries[1].level, LogLevel::Success);
    assert_eq!(entries[2].level, LogLevel::Warning);
    assert_eq!(entries[3].level, LogLevel::Error);
}

#[test]
fn test_structured_logger_clear() {
    let mut logger = StructuredLogger::new();

    logger.info("Test 1".to_string());
    logger.info("Test 2".to_string());
    logger.info("Test 3".to_string());

    assert_eq!(logger.entries().len(), 3);

    logger.clear();
    assert_eq!(logger.entries().len(), 0);
}

#[test]
fn test_structured_logger_capacity() {
    let mut logger = StructuredLogger::new();

    for i in 0..1100 {
        logger.info(format!("Message {}", i));
    }

    assert_eq!(logger.entries().len(), 1000);
}

#[test]
fn test_structured_logger_oldest_removed() {
    let mut logger = StructuredLogger::new();

    for i in 0..1000 {
        logger.info(format!("Message {}", i));
    }

    logger.info("Message 1000".to_string());

    assert_eq!(logger.entries().len(), 1000);

    let first_message = &logger.entries()[0].message;
    assert_ne!(first_message, "Message 0");
}

#[test]
fn test_log_entry_timestamps() {
    let mut logger = StructuredLogger::new();

    logger.info("First".to_string());
    logger.info("Second".to_string());

    let entries = logger.entries();
    assert!(entries[1].timestamp >= entries[0].timestamp);
}

#[test]
fn test_log_entry_message_content() {
    let mut logger = StructuredLogger::new();

    let test_message = "This is a test message with special chars: !@#$%^&*()".to_string();
    logger.info(test_message.clone());

    assert_eq!(logger.entries()[0].message, test_message);
}

#[test]
fn test_log_entry_time_str_shape() {
    let entry = LogEntry::info("clock".to_string());
    let text = entry.time_str();
    let chars: Vec<char> = text.chars().collect();
    assert_eq!(chars.len(), 8);
    assert_eq!(chars[2], ':');
    assert_eq!(chars[5], ':');
}

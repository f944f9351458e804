use duald::logger::LogLevel;
use duald::logger::set_log_level;
use duald::logger::setup_logger;
use duald::setup;

#[test]
fn setup_logger_enables_everything() {
    let config = setup_logger();
    assert_eq!(config.level, LogLevel::Trace);
}

#[test]
fn setup_initializes_the_logging_context() {
    let config = setup();
    assert_eq!(config.level, LogLevel::Trace);
}

#[test]
fn set_log_level_indexes_the_level_table() {
    let mut config = setup_logger();
    set_log_level(&mut config, 0);
    assert_eq!(config.level, LogLevel::Error);
    set_log_level(&mut config, 1);
    assert_eq!(config.level, LogLevel::Warn);
    set_log_level(&mut config, 2);
    assert_eq!(config.level, LogLevel::Info);
    set_log_level(&mut config, 3);
    assert_eq!(config.level, LogLevel::Debug);
    set_log_level(&mut config, 4);
    assert_eq!(config.level, LogLevel::Trace);
}

use openflow::http::{should_retry, Attempt, RETRIES};
use openflow::logger::{Level, Logger};

#[test]
fn retry_decisions() {
    assert!(!should_retry(1, Attempt::Succeeded));
    assert!(should_retry(1, Attempt::Failed));
    assert!(should_retry(9, Attempt::Status(500)));
    assert!(!should_retry(1, Attempt::Status(501)));
    assert!(!should_retry(RETRIES, Attempt::Failed));
    assert!(!should_retry(RETRIES, Attempt::Status(500)));
}

#[test]
fn retry_attempts_are_bounded() {
    let mut attempts = 1;
    while should_retry(attempts, Attempt::Failed) {
        attempts += 1;
    }
    assert_eq!(attempts, 10);
}

#[test]
fn logger_labels() {
    let logger = Logger::new();
    assert_eq!(logger.level, Level::Info);
    assert_eq!(logger.label(Level::Info), Some("<6>"));
    assert_eq!(logger.label(Level::Error), Some("<3>"));
    let quiet = Logger { level: Level::Error };
    assert_eq!(quiet.label(Level::Info), None);
    assert_eq!(quiet.label(Level::Error), Some("<3>"));
    let off = Logger { level: Level::Off };
    assert_eq!(off.label(Level::Error), None);
    off.info("not shown".to_string());
    off.error("not shown".to_string());
    logger.info("shown".to_string());
}

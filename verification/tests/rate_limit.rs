use web_service::rate_limit::{
    allow_attempt, clear_failures, client_key, record_failure, LoginAttempts, MAX_FAILURES,
    WINDOW_NANOS,
};

const SECOND: u64 = 1_000_000_000;

#[test]
fn ten_failures_within_a_minute_block() {
    let mut a = LoginAttempts::new();
    let start = 5 * SECOND;
    for i in 0..MAX_FAILURES as u64 {
        assert!(allow_attempt(&mut a, "1.2.3.4", start + i * SECOND));
        record_failure(&mut a, "1.2.3.4", start + i * SECOND);
    }
    assert!(!allow_attempt(&mut a, "1.2.3.4", start + 30 * SECOND));
    assert!(!allow_attempt(&mut a, "1.2.3.4", start + 30 * SECOND));
}

#[test]
fn nine_failures_do_not_block() {
    let mut a = LoginAttempts::new();
    for i in 0..(MAX_FAILURES as u64 - 1) {
        record_failure(&mut a, "k", i);
    }
    assert!(allow_attempt(&mut a, "k", 100));
}

#[test]
fn failures_expire_after_the_window() {
    let mut a = LoginAttempts::new();
    for i in 0..MAX_FAILURES as u64 {
        record_failure(&mut a, "k", i * SECOND);
    }
    assert!(!allow_attempt(&mut a, "k", 59 * SECOND));
    assert!(allow_attempt(&mut a, "k", 9 * SECOND + WINDOW_NANOS));
}

#[test]
fn clearing_unblocks() {
    let mut a = LoginAttempts::new();
    for _ in 0..20 {
        record_failure(&mut a, "k", 1);
    }
    assert!(!allow_attempt(&mut a, "k", 2));
    clear_failures(&mut a, "k");
    assert!(allow_attempt(&mut a, "k", 2));
}

#[test]
fn clients_are_counted_apart() {
    let mut a = LoginAttempts::new();
    for _ in 0..MAX_FAILURES {
        record_failure(&mut a, "a", 1);
    }
    assert!(!allow_attempt(&mut a, "a", 2));
    assert!(allow_attempt(&mut a, "b", 2));
    clear_failures(&mut a, "b");
    assert!(!allow_attempt(&mut a, "a", 2));
}

#[test]
fn unknown_client_key() {
    assert_eq!(client_key(None), "unknown");
    assert_eq!(client_key(Some("10.0.0.1".to_string())), "10.0.0.1");
}

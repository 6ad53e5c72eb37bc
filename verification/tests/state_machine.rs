use smith_rs::config::ServiceState;

#[test]
fn new_state_starts_soft_ok() {
    let s = ServiceState::new(3);
    assert_eq!(s.current_state, "OK");
    assert_eq!(s.last_hard_state, "OK");
    assert_eq!(s.state_type, "SOFT");
    assert_eq!(s.current_attempt, 1);
    assert_eq!(s.max_attempts, 3);
    assert!(!s.is_hard_state);
    assert!(s.verify_state_integrity());
}

#[test]
fn first_failure_is_soft_and_silent() {
    let mut s = ServiceState::new(3);
    assert!(!s.record_result("CRITICAL"));
    assert_eq!(s.current_state, "CRITICAL");
    assert_eq!(s.state_type, "SOFT");
    assert_eq!(s.current_attempt, 1);
    assert_eq!(s.last_hard_state, "OK");
}

#[test]
fn hard_after_check_attempts_with_one_notification() {
    let mut s = ServiceState::new(3);
    let mut notifications = 0;
    for _ in 0..3 {
        if s.record_result("CRITICAL") {
            notifications += 1;
        }
    }
    assert_eq!(s.state_type, "HARD");
    assert_eq!(s.current_state, "CRITICAL");
    assert_eq!(s.last_hard_state, "CRITICAL");
    assert_eq!(s.current_attempt, 3);
    assert_eq!(notifications, 1);
    for _ in 0..5 {
        assert!(!s.record_result("CRITICAL"));
    }
    assert_eq!(s.current_attempt, 3);
}

#[test]
fn recovery_from_hard_problem_notifies() {
    let mut s = ServiceState::new(2);
    s.record_result("WARNING");
    assert!(s.record_result("WARNING"));
    assert!(s.record_result("OK"));
    assert_eq!(s.state_type, "HARD");
    assert_eq!(s.current_state, "OK");
    assert_eq!(s.last_hard_state, "OK");
    assert_eq!(s.current_attempt, 1);
}

#[test]
fn recovery_from_soft_problem_is_silent() {
    let mut s = ServiceState::new(3);
    assert!(!s.record_result("CRITICAL"));
    assert!(!s.record_result("OK"));
    assert_eq!(s.state_type, "HARD");
    assert_eq!(s.current_state, "OK");
}

#[test]
fn single_attempt_confirms_at_once() {
    let mut s = ServiceState::new(1);
    assert!(s.record_result("ERROR"));
    assert_eq!(s.state_type, "HARD");
    assert_eq!(s.last_hard_state, "ERROR");
    assert!(!s.record_result("ERROR"));
    assert!(s.record_result("WARNING"));
    assert_eq!(s.last_hard_state, "WARNING");
}

#[test]
fn problem_changes_keep_counting() {
    let mut s = ServiceState::new(3);
    s.record_result("WARNING");
    s.record_result("WARNING");
    assert_eq!(s.current_attempt, 2);
    assert!(s.record_result("CRITICAL"));
    assert_eq!(s.current_attempt, 3);
    assert_eq!(s.state_type, "HARD");
    assert_eq!(s.current_state, "CRITICAL");
    assert_eq!(s.last_hard_state, "CRITICAL");
}

#[test]
fn two_attempts_warning_then_critical_is_hard() {
    let mut s = ServiceState::new(2);
    assert!(!s.record_result("WARNING"));
    assert!(s.record_result("CRITICAL"));
    assert_eq!(s.state_type, "HARD");
    assert_eq!(s.current_attempt, 2);
    assert_eq!(s.last_hard_state, "CRITICAL");
}

#[test]
fn repeated_ok_confirms_without_notification() {
    let mut s = ServiceState::new(2);
    assert!(!s.record_result("OK"));
    assert_eq!(s.state_type, "HARD");
    assert_eq!(s.current_attempt, 2);
    assert!(!s.record_result("OK"));
}

#[test]
fn hard_problem_change_is_confirmed_at_once() {
    let mut s = ServiceState::new(2);
    s.record_result("WARNING");
    assert!(s.record_result("WARNING"));
    assert!(s.record_result("CRITICAL"));
    assert_eq!(s.state_type, "HARD");
    assert_eq!(s.current_state, "CRITICAL");
    assert_eq!(s.last_hard_state, "CRITICAL");
    assert_eq!(s.current_attempt, 2);
    assert!(!s.record_result("CRITICAL"));
}

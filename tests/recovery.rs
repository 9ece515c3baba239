use order_sync::error::OrderChangeError;
use order_sync::recovery::{Recoverable, RecoveryResult};

#[test]
fn test_recovery_success() {
    let result: Result<i32, OrderChangeError> = Ok(42);
    let recovery = result.recover_with_fallback(|| 0);
    assert!(recovery.is_success());
    assert_eq!(recovery.unwrap(), 42);
}

#[test]
fn test_recovery_recoverable() {
    let result: Result<i32, OrderChangeError> = Err(OrderChangeError::LengthMismatch {
        current: 1,
        target: 2,
    });
    let recovery = result.recover_with_fallback(|| 0);
    assert!(recovery.is_recovered());
    assert_eq!(recovery.unwrap(), 0);
}

#[test]
fn test_recovery_failed() {
    let result: Result<i32, OrderChangeError> = Err(OrderChangeError::InvalidData("test".to_string()));
    let recovery = result.recover_with_fallback(|| 0);
    assert!(recovery.is_failed());
    assert!(recovery.unwrap_or(|| -1) == -1);
}

#[test]
fn recovered_value_comes_from_error_handler() {
    let result: Result<usize, OrderChangeError> = Err(OrderChangeError::LengthMismatch { current: 4, target: 1 });
    let recovery = result.recover_with_error(|e| match e {
        OrderChangeError::LengthMismatch { current, .. } => *current,
        _ => 0,
    });
    assert!(recovery.is_recovered());
    assert_eq!(recovery.get_value(), Some(4));
}

#[test]
fn error_handler_is_skipped_for_errors_that_are_not_recoverable() {
    let mut called = false;
    let result: Result<usize, OrderChangeError> = Err(OrderChangeError::NodeNotFound("n".to_string()));
    let recovery = result.recover_with_error(|_| {
        called = true;
        1
    });
    assert!(!called);
    assert!(matches!(recovery, RecoveryResult::Failed(OrderChangeError::NodeNotFound(_))));
}

#[test]
fn callback_runs_before_failure() {
    let mut seen = false;
    let result: Result<i32, OrderChangeError> = Err(OrderChangeError::InvalidNodeState("x".to_string()));
    let recovery = result.recover_with_callback(|| 0, |_| seen = true);
    assert!(seen);
    assert!(matches!(recovery, RecoveryResult::Failed(OrderChangeError::InvalidNodeState(_))));
}

use gvac::errors::{invalid_input, state_lock_poisoned, AppError};

#[test]
fn error_messages() {
    assert_eq!(AppError::Io("boom".to_string()).message(), "I/O error: boom");
    assert_eq!(AppError::Ssh("x".to_string()).message(), "SSH error: x");
    assert_eq!(AppError::Http("y".to_string()).message(), "HTTP error: y");
    assert_eq!(AppError::SessionNotFound.message(), "Session not found");
    assert_eq!(AppError::TerminalNotFound.message(), "Terminal not found");
    assert_eq!(AppError::AuthFailed.message(), "Authentication failed");
    assert_eq!(invalid_input("bad").message(), "Invalid input: bad");
}

#[test]
fn poisoned_lock_error() {
    let e = state_lock_poisoned();
    assert!(matches!(&e, AppError::InvalidInput(m) if m == "state lock poisoned"));
    assert_eq!(e.message(), "Invalid input: state lock poisoned");
}

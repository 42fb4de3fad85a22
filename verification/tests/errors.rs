use cell_sdk::error::{CellError, ErrorCategory, ErrorContext};
use cell_sdk::error_response::{io_error_code, CellErrorCode, CellErrorResponse, IntoCellError};

#[test]
fn test_error_code_is_retryable() {
    assert!(CellErrorCode::DependencyUnavailable.is_retryable());
    assert!(CellErrorCode::RateLimited.is_retryable());
    assert!(!CellErrorCode::InvalidRequest.is_retryable());
    assert!(!CellErrorCode::HandlerError.is_retryable());
}

#[test]
fn error_codes_and_categories() {
    assert_eq!(CellError::ConnectionRefused.code(), 100);
    assert_eq!(CellError::TransportUnavailable.code(), 107);
    assert_eq!(CellError::InvalidHeader.code(), 200);
    assert_eq!(CellError::ResourceExhausted.code(), 303);
    assert_eq!(CellError::DependencyFailed.code(), 403);
    assert_eq!(CellError::NotImplemented.code(), 502);
    assert_eq!(CellError::Timeout.category(), ErrorCategory::Transport);
    assert_eq!(CellError::Corruption.category(), ErrorCategory::Protocol);
    assert_eq!(CellError::RateLimited.category(), ErrorCategory::Resource);
    assert_eq!(CellError::NotFound.category(), ErrorCategory::State);
    assert_eq!(CellError::Panic.category(), ErrorCategory::Internal);
    assert_eq!(ErrorCategory::Transport.name(), "transport");
    assert_eq!(ErrorCategory::Internal.name(), "internal");
}

#[test]
fn error_transience_and_retry_delays() {
    assert!(CellError::Timeout.is_transient());
    assert!(CellError::QuotaExceeded.is_transient());
    assert!(CellError::InvalidHeader.is_permanent());
    assert!(!CellError::InvalidHeader.is_transient());
    assert_eq!(CellError::Timeout.retry_delay(), Some(100));
    assert_eq!(CellError::ConnectionRefused.retry_delay(), Some(500));
    assert_eq!(CellError::ConnectionReset.retry_delay(), Some(100));
    assert_eq!(CellError::CircuitBreakerOpen.retry_delay(), Some(5000));
    assert_eq!(CellError::RateLimited.retry_delay(), Some(1000));
    assert_eq!(CellError::IoError.retry_delay(), Some(250));
    assert_eq!(CellError::OutOfMemory.retry_delay(), Some(250));
    assert_eq!(CellError::NotFound.retry_delay(), None);
}

#[test]
fn error_messages() {
    assert_eq!(CellError::ConnectionReset.message(), "Connection reset by peer");
    assert_eq!(CellError::IoError.message(), "I/O error");
    assert_eq!(CellError::InvalidState.message(), "Invalid state for operation");
}

#[test]
fn error_context_renders_all_parts() {
    let ctx = ErrorContext::new(CellError::Timeout);
    assert_eq!(ctx.to_text(), "[102] Operation timed out");
    let ctx = ErrorContext::new(CellError::NotFound)
        .with_message("no such key")
        .with_cell("vault")
        .with_operation("get")
        .with_source("disk");
    assert_eq!(ctx.to_text(), "[400] no such key (cell: vault) (op: get) <- disk");
    let ctx = ErrorContext::new(CellError::Panic).with_source("worker");
    assert_eq!(ctx.to_text(), "[501] Panic in cell <- worker");
}

#[test]
fn error_response_constructors() {
    let r = CellErrorResponse::validation_failed("test error", "test_cell", 7);
    assert_eq!(r.code, CellErrorCode::ValidationFailed);
    assert_eq!(r.message, "test error");
    assert_eq!(r.source_cell, "test_cell");
    assert_eq!(r.timestamp, 7);
    assert!(r.details.is_none());
    let r = CellErrorResponse::handler_error("boom", "x", 1).with_details("stack");
    assert_eq!(r.code, CellErrorCode::HandlerError);
    assert_eq!(r.details.as_deref(), Some("stack"));
    let r = CellErrorResponse::invalid_request("bad", "y", 2);
    assert_eq!(r.code, CellErrorCode::InvalidRequest);
}

#[test]
fn error_code_status_codes_round_trip() {
    let all = [
        CellErrorCode::InvalidRequest,
        CellErrorCode::HandlerNotFound,
        CellErrorCode::ValidationFailed,
        CellErrorCode::HandlerError,
        CellErrorCode::StorageError,
        CellErrorCode::DependencyUnavailable,
        CellErrorCode::CellShuttingDown,
        CellErrorCode::RateLimited,
        CellErrorCode::QuotaExceeded,
        CellErrorCode::Unknown,
    ];
    for c in all {
        assert_eq!(CellErrorCode::from_status_code(c.to_status_code()), Some(c));
    }
    assert_eq!(CellErrorCode::StorageError.to_status_code(), 2001);
    assert_eq!(CellErrorCode::Unknown.to_status_code(), 9999);
    assert_eq!(CellErrorCode::from_status_code(1234), None);
}

#[test]
fn io_errors_become_storage_or_unknown() {
    assert_eq!(io_error_code(true), CellErrorCode::StorageError);
    assert_eq!(io_error_code(false), CellErrorCode::Unknown);
    let e = std::io::Error::new(std::io::ErrorKind::NotFound, "gone");
    let r = e.into_cell_error("store", 5);
    assert_eq!(r.code, CellErrorCode::StorageError);
    assert_eq!(r.message, "IO Error: gone");
    let e = std::io::Error::new(std::io::ErrorKind::Other, "odd");
    let r = e.into_cell_error("store", 5);
    assert_eq!(r.code, CellErrorCode::Unknown);
    let a = anyhow::Error::msg("handler blew up");
    let r = a.into_cell_error("svc", 9);
    assert_eq!(r.code, CellErrorCode::HandlerError);
    assert!(r.message.contains("handler blew up"));
}

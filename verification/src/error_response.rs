//! The standard error response sent between cells when a request fails
//! validation or handling.

use vstd::prelude::*;

verus! {

/// Error codes for cell communication failures.
#[derive(Debug, Clone, Copy, PartialEq, Eq, Structural)]
pub enum CellErrorCode {
    /// Request deserialization/validation failed
    InvalidRequest,
    /// Handler not found for the request type
    HandlerNotFound,
    /// Request validation failed (missing fields, invalid values)
    ValidationFailed,
    /// Internal handler error (panic or unexpected error)
    HandlerError,
    /// Database or storage error
    StorageError,
    /// External dependency unavailable
    DependencyUnavailable,
    /// Cell is shutting down
    CellShuttingDown,
    /// Rate limit exceeded
    RateLimited,
    /// Resource quota exceeded
    QuotaExceeded,
    /// Unknown/unexpected error
    Unknown,
}

impl CellErrorCode {
    pub open spec fn spec_status_code(self) -> u16 {
        match self {
            CellErrorCode::InvalidRequest => 1000,
            CellErrorCode::HandlerNotFound => 1001,
            CellErrorCode::ValidationFailed => 1002,
            CellErrorCode::HandlerError => 2000,
            CellErrorCode::StorageError => 2001,
            CellErrorCode::DependencyUnavailable => 2002,
            CellErrorCode::CellShuttingDown => 3000,
            CellErrorCode::RateLimited => 3001,
            CellErrorCode::QuotaExceeded => 3002,
            CellErrorCode::Unknown => 9999,
        }
    }

    pub open spec fn spec_is_retryable(self) -> bool {
        self == CellErrorCode::DependencyUnavailable || self == CellErrorCode::RateLimited
            || self == CellErrorCode::StorageError
    }

    /// Check if this error is retryable.
    pub fn is_retryable(&self) -> (b: bool)
        ensures
            b == self.spec_is_retryable(),
    {
        match self {
            CellErrorCode::DependencyUnavailable | CellErrorCode::RateLimited
            | CellErrorCode::StorageError => true,
            _ => false,
        }
    }

    /// HTTP-like status code for interoperability.
    pub fn to_status_code(&self) -> (c: u16)
        ensures
            c == self.spec_status_code(),
    {
        match self {
            CellErrorCode::InvalidRequest => 1000,
            CellErrorCode::HandlerNotFound => 1001,
            CellErrorCode::ValidationFailed => 1002,
            CellErrorCode::HandlerError => 2000,
            CellErrorCode::StorageError => 2001,
            CellErrorCode::DependencyUnavailable => 2002,
            CellErrorCode::CellShuttingDown => 3000,
            CellErrorCode::RateLimited => 3001,
            CellErrorCode::QuotaExceeded => 3002,
            CellErrorCode::Unknown => 9999,
        }
    }

    /// The code whose status number is `status`, if any.
    pub fn from_status_code(status: u16) -> (r: Option<CellErrorCode>)
        ensures
            r matches Some(c) ==> c.spec_status_code() == status,
            r is None <==> (forall|c: CellErrorCode| c.spec_status_code() != status),
            forall|c: CellErrorCode| #[trigger] c.spec_status_code() == status ==> r == Some(c),
    {
        let r = if status == 1000 {
            Some(CellErrorCode::InvalidRequest)
        } else if status == 1001 {
            Some(CellErrorCode::HandlerNotFound)
        } else if status == 1002 {
            Some(CellErrorCode::ValidationFailed)
        } else if status == 2000 {
            Some(CellErrorCode::HandlerError)
        } else if status == 2001 {
            Some(CellErrorCode::StorageError)
        } else if status == 2002 {
            Some(CellErrorCode::DependencyUnavailable)
        } else if status == 3000 {
            Some(CellErrorCode::CellShuttingDown)
        } else if status == 3001 {
            Some(CellErrorCode::RateLimited)
        } else if status == 3002 {
            Some(CellErrorCode::QuotaExceeded)
        } else if status == 9999 {
            Some(CellErrorCode::Unknown)
        } else {
            None
        };
        proof {
            if r is None {
                assert forall|c: CellErrorCode| c.spec_status_code() != status by {
                    match c {
                        _ => {},
                    }
                }
            }
            if r is Some {
                assert(r.unwrap().spec_status_code() == status);
            }
            assert forall|c: CellErrorCode| #[trigger] c.spec_status_code() == status implies r == Some(c) by {
                lemma_status_codes_distinct(c, r.unwrap());
            }
        }
        r
    }
}

/// No two codes share a status number, so a code read back from its
/// status number is the code itself.
pub proof fn lemma_status_codes_distinct(a: CellErrorCode, b: CellErrorCode)
    ensures
        a.spec_status_code() == b.spec_status_code() ==> a == b,
{
}

/// Standard error response structure for all cell communications.
#[derive(Debug)]
pub struct CellErrorResponse {
    /// Error code categorizing the failure
    pub code: CellErrorCode,
    /// Human-readable error message
    pub message: String,
    /// Name of the cell that generated the error
    pub source_cell: String,
    /// Optional error details (stack trace, validation errors)
    pub details: Option<String>,
    /// Unix time in milliseconds at which the error occurred
    pub timestamp: u64,
}

impl CellErrorResponse {
    /// Create a new error response stamped with `timestamp` (Unix millis).
    pub fn new(code: CellErrorCode, message: &str, source_cell: &str, timestamp: u64) -> (r: Self)
        ensures
            r.code == code,
            r.message@ == message@,
            r.source_cell@ == source_cell@,
            r.details is None,
            r.timestamp == timestamp,
    {
        CellErrorResponse {
            code,
            message: String::from_str(message),
            source_cell: String::from_str(source_cell),
            details: None,
            timestamp,
        }
    }

    /// Add error details.
    pub fn with_details(self, details: &str) -> (r: Self)
        ensures
            r.details matches Some(d) && d@ == details@,
            r.code == self.code,
            r.message == self.message,
            r.source_cell == self.source_cell,
            r.timestamp == self.timestamp,
    {
        let mut s = self;
        s.details = Some(String::from_str(details));
        s
    }

    /// Quick constructor for validation errors.
    pub fn validation_failed(message: &str, source_cell: &str, timestamp: u64) -> (r: Self)
        ensures
            r.code == CellErrorCode::ValidationFailed,
            r.message@ == message@,
            r.source_cell@ == source_cell@,
            r.details is None,
            r.timestamp == timestamp,
    {
        Self::new(CellErrorCode::ValidationFailed, message, source_cell, timestamp)
    }

    /// Quick constructor for handler errors.
    pub fn handler_error(message: &str, source_cell: &str, timestamp: u64) -> (r: Self)
        ensures
            r.code == CellErrorCode::HandlerError,
            r.message@ == message@,
            r.source_cell@ == source_cell@,
            r.details is None,
            r.timestamp == timestamp,
    {
        Self::new(CellErrorCode::HandlerError, message, source_cell, timestamp)
    }

    /// Quick constructor for invalid requests.
    pub fn invalid_request(message: &str, source_cell: &str, timestamp: u64) -> (r: Self)
        ensures
            r.code == CellErrorCode::InvalidRequest,
            r.message@ == message@,
            r.source_cell@ == source_cell@,
            r.details is None,
            r.timestamp == timestamp,
    {
        Self::new(CellErrorCode::InvalidRequest, message, source_cell, timestamp)
    }
}

/// The code reported for an I/O failure: a missing file or object is a
/// storage error, anything else is unknown.
pub open spec fn spec_io_error_code(not_found: bool) -> CellErrorCode {
    if not_found { CellErrorCode::StorageError } else { CellErrorCode::Unknown }
}

pub fn io_error_code(not_found: bool) -> (c: CellErrorCode)
    ensures
        c == spec_io_error_code(not_found),
{
    if not_found { CellErrorCode::StorageError } else { CellErrorCode::Unknown }
}

/// Types that can be turned into an error response.
pub trait IntoCellError {
    fn into_cell_error(self, source_cell: &str, timestamp: u64) -> CellErrorResponse;
}

#[verifier::external_type_specification]
#[verifier::external_body]
pub struct ExAnyhowError(anyhow::Error);

#[verifier::external_type_specification]
#[verifier::external_body]
pub struct ExIoError(std::io::Error);

/// `format!("{:?}", e)` of an `anyhow::Error`: its message with its chain of
/// causes. Nothing is stated of the text.
#[verifier::external_body]
fn anyhow_debug_text(e: &anyhow::Error) -> String {
    format!("{:?}", e)
}

/// The `Display` text of an I/O error (`format!("{}", e)`). Nothing is
/// stated of the text.
#[verifier::external_body]
fn io_error_text(e: &std::io::Error) -> String {
    format!("{}", e)
}

/// The message of an error response for an I/O error that reads `t`.
pub fn io_error_message(t: &String) -> (s: String)
    ensures
        s@ == "IO Error: "@ + t@,
{
    let mut s = String::from_str("IO Error: ");
    s.append(t.as_str());
    s
}

/// `std::io::Error::kind`, compared with `ErrorKind::NotFound`.
#[verifier::external_body]
fn io_error_not_found(e: &std::io::Error) -> bool {
    matches!(e.kind(), std::io::ErrorKind::NotFound)
}

impl IntoCellError for anyhow::Error {
    /// A handler error, with the error and its causes as the message.
    fn into_cell_error(self, source_cell: &str, timestamp: u64) -> (r: CellErrorResponse)
        ensures
            r.code == CellErrorCode::HandlerError,
            r.source_cell@ == source_cell@,
            r.details is None,
            r.timestamp == timestamp,
    {
        let message = anyhow_debug_text(&self);
        CellErrorResponse::handler_error(message.as_str(), source_cell, timestamp)
    }
}

impl IntoCellError for std::io::Error {
    /// A storage error when the object was not found, else an unknown
    /// error, with the I/O error as the message.
    fn into_cell_error(self, source_cell: &str, timestamp: u64) -> (r: CellErrorResponse)
        ensures
            r.code == CellErrorCode::StorageError || r.code == CellErrorCode::Unknown,
            exists|t: Seq<char>| r.message@ == "IO Error: "@ + t,
            r.source_cell@ == source_cell@,
            r.details is None,
            r.timestamp == timestamp,
    {
        let message = io_error_message(&io_error_text(&self));
        let code = io_error_code(io_error_not_found(&self));
        CellErrorResponse::new(code, message.as_str(), source_cell, timestamp)
    }
}

} // verus!

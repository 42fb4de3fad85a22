//! Error classification for cell operations: codes, categories, retry
//! policy and a rich error context that renders itself as text.

use vstd::prelude::*;
use crate::text::u64_to_decimal;

verus! {

/// Primary error classification for cell operations.
#[derive(Debug, Clone, Copy, PartialEq, Eq, Structural)]
pub enum CellError {
    // Transport layer errors (100-199)
    ConnectionRefused,
    ConnectionReset,
    Timeout,
    AccessDenied,
    CapabilityMissing,
    IoError,
    CircuitBreakerOpen,
    TransportUnavailable,
    // Protocol errors (200-299)
    InvalidHeader,
    SerializationFailure,
    DeserializationFailure,
    Corruption,
    ProtocolMismatch,
    InvalidMessage,
    // Resource errors (300-399)
    OutOfMemory,
    QuotaExceeded,
    RateLimited,
    ResourceExhausted,
    // State errors (400-499)
    NotFound,
    AlreadyExists,
    InvalidState,
    DependencyFailed,
    // Internal errors (500-599)
    InternalError,
    Panic,
    NotImplemented,
}

/// Error classification categories.
#[derive(Debug, Clone, Copy, PartialEq, Eq, Structural)]
pub enum ErrorCategory {
    Transport,
    Protocol,
    Resource,
    State,
    Internal,
}

impl CellError {
    /// The numeric code of each error; the hundreds digit names its category.
    pub open spec fn spec_code(self) -> u16 {
        match self {
            CellError::ConnectionRefused => 100,
            CellError::ConnectionReset => 101,
            CellError::Timeout => 102,
            CellError::AccessDenied => 103,
            CellError::CapabilityMissing => 104,
            CellError::IoError => 105,
            CellError::CircuitBreakerOpen => 106,
            CellError::TransportUnavailable => 107,
            CellError::InvalidHeader => 200,
            CellError::SerializationFailure => 201,
            CellError::DeserializationFailure => 202,
            CellError::Corruption => 203,
            CellError::ProtocolMismatch => 204,
            CellError::InvalidMessage => 205,
            CellError::OutOfMemory => 300,
            CellError::QuotaExceeded => 301,
            CellError::RateLimited => 302,
            CellError::ResourceExhausted => 303,
            CellError::NotFound => 400,
            CellError::AlreadyExists => 401,
            CellError::InvalidState => 402,
            CellError::DependencyFailed => 403,
            CellError::InternalError => 500,
            CellError::Panic => 501,
            CellError::NotImplemented => 502,
        }
    }

    pub open spec fn spec_category(self) -> ErrorCategory {
        match self {
            CellError::ConnectionRefused | CellError::ConnectionReset | CellError::Timeout
            | CellError::AccessDenied | CellError::CapabilityMissing | CellError::IoError
            | CellError::CircuitBreakerOpen
            | CellError::TransportUnavailable => ErrorCategory::Transport,
            CellError::InvalidHeader | CellError::SerializationFailure
            | CellError::DeserializationFailure | CellError::Corruption
            | CellError::ProtocolMismatch | CellError::InvalidMessage => ErrorCategory::Protocol,
            CellError::OutOfMemory | CellError::QuotaExceeded | CellError::RateLimited
            | CellError::ResourceExhausted => ErrorCategory::Resource,
            CellError::NotFound | CellError::AlreadyExists | CellError::InvalidState
            | CellError::DependencyFailed => ErrorCategory::State,
            CellError::InternalError | CellError::Panic
            | CellError::NotImplemented => ErrorCategory::Internal,
        }
    }

    pub open spec fn spec_is_transient(self) -> bool {
        self.spec_category() == ErrorCategory::Transport
            || self.spec_category() == ErrorCategory::Resource
    }

    /// Recommended retry delay in milliseconds; `None` for permanent errors.
    pub open spec fn spec_retry_delay(self) -> Option<u64> {
        if !self.spec_is_transient() {
            None
        } else {
            Some(
                match self {
                    CellError::Timeout => 100,
                    CellError::ConnectionRefused => 500,
                    CellError::ConnectionReset => 100,
                    CellError::CircuitBreakerOpen => 5000,
                    CellError::RateLimited => 1000,
                    _ => 250,
                },
            )
        }
    }

    pub open spec fn spec_message(self) -> Seq<char> {
        match self {
            CellError::ConnectionRefused => "Connection refused"@,
            CellError::ConnectionReset => "Connection reset by peer"@,
            CellError::Timeout => "Operation timed out"@,
            CellError::AccessDenied => "Access denied"@,
            CellError::CapabilityMissing => "Required capability not available"@,
            CellError::IoError => "I/O error"@,
            CellError::CircuitBreakerOpen => "Circuit breaker is open"@,
            CellError::TransportUnavailable => "Transport layer unavailable"@,
            CellError::InvalidHeader => "Invalid message header"@,
            CellError::SerializationFailure => "Serialization failed"@,
            CellError::DeserializationFailure => "Deserialization failed"@,
            CellError::Corruption => "Data corruption detected"@,
            CellError::ProtocolMismatch => "Protocol version mismatch"@,
            CellError::InvalidMessage => "Invalid message format"@,
            CellError::OutOfMemory => "Out of memory"@,
            CellError::QuotaExceeded => "Resource quota exceeded"@,
            CellError::RateLimited => "Rate limit exceeded"@,
            CellError::ResourceExhausted => "Resource exhausted"@,
            CellError::NotFound => "Resource not found"@,
            CellError::AlreadyExists => "Resource already exists"@,
            CellError::InvalidState => "Invalid state for operation"@,
            CellError::DependencyFailed => "Dependency check failed"@,
            CellError::InternalError => "Internal error"@,
            CellError::Panic => "Panic in cell"@,
            CellError::NotImplemented => "Feature not implemented"@,
        }
    }

    /// The numeric error code.
    pub fn code(&self) -> (c: u16)
        ensures
            c == self.spec_code(),
    {
        match self {
            CellError::ConnectionRefused => 100,
            CellError::ConnectionReset => 101,
            CellError::Timeout => 102,
            CellError::AccessDenied => 103,
            CellError::CapabilityMissing => 104,
            CellError::IoError => 105,
            CellError::CircuitBreakerOpen => 106,
            CellError::TransportUnavailable => 107,
            CellError::InvalidHeader => 200,
            CellError::SerializationFailure => 201,
            CellError::DeserializationFailure => 202,
            CellError::Corruption => 203,
            CellError::ProtocolMismatch => 204,
            CellError::InvalidMessage => 205,
            CellError::OutOfMemory => 300,
            CellError::QuotaExceeded => 301,
            CellError::RateLimited => 302,
            CellError::ResourceExhausted => 303,
            CellError::NotFound => 400,
            CellError::AlreadyExists => 401,
            CellError::InvalidState => 402,
            CellError::DependencyFailed => 403,
            CellError::InternalError => 500,
            CellError::Panic => 501,
            CellError::NotImplemented => 502,
        }
    }

    /// Get error category for classification.
    pub fn category(&self) -> (c: ErrorCategory)
        ensures
            c == self.spec_category(),
    {
        match self {
            CellError::ConnectionRefused | CellError::ConnectionReset | CellError::Timeout
            | CellError::AccessDenied | CellError::CapabilityMissing | CellError::IoError
            | CellError::CircuitBreakerOpen
            | CellError::TransportUnavailable => ErrorCategory::Transport,
            CellError::InvalidHeader | CellError::SerializationFailure
            | CellError::DeserializationFailure | CellError::Corruption
            | CellError::ProtocolMismatch | CellError::InvalidMessage => ErrorCategory::Protocol,
            CellError::OutOfMemory | CellError::QuotaExceeded | CellError::RateLimited
            | CellError::ResourceExhausted => ErrorCategory::Resource,
            CellError::NotFound | CellError::AlreadyExists | CellError::InvalidState
            | CellError::DependencyFailed => ErrorCategory::State,
            CellError::InternalError | CellError::Panic
            | CellError::NotImplemented => ErrorCategory::Internal,
        }
    }

    /// Check if error is transient (can be retried).
    pub fn is_transient(&self) -> (b: bool)
        ensures
            b == self.spec_is_transient(),
    {
        match self.category() {
            ErrorCategory::Transport | ErrorCategory::Resource => true,
            _ => false,
        }
    }

    /// Check if error indicates permanent failure.
    pub fn is_permanent(&self) -> (b: bool)
        ensures
            b == !self.spec_is_transient(),
    {
        !self.is_transient()
    }

    /// Recommended retry delay (milliseconds) for transient errors.
    pub fn retry_delay(&self) -> (r: Option<u64>)
        ensures
            r == self.spec_retry_delay(),
    {
        if !self.is_transient() {
            return None;
        }
        Some(
            match self {
                CellError::Timeout => 100,
                CellError::ConnectionRefused => 500,
                CellError::ConnectionReset => 100,
                CellError::CircuitBreakerOpen => 5000,
                CellError::RateLimited => 1000,
                _ => 250,
            },
        )
    }

    /// The human-readable description of the error.
    pub fn message(&self) -> (s: &'static str)
        ensures
            s@ == self.spec_message(),
    {
        match self {
            CellError::ConnectionRefused => "Connection refused",
            CellError::ConnectionReset => "Connection reset by peer",
            CellError::Timeout => "Operation timed out",
            CellError::AccessDenied => "Access denied",
            CellError::CapabilityMissing => "Required capability not available",
            CellError::IoError => "I/O error",
            CellError::CircuitBreakerOpen => "Circuit breaker is open",
            CellError::TransportUnavailable => "Transport layer unavailable",
            CellError::InvalidHeader => "Invalid message header",
            CellError::SerializationFailure => "Serialization failed",
            CellError::DeserializationFailure => "Deserialization failed",
            CellError::Corruption => "Data corruption detected",
            CellError::ProtocolMismatch => "Protocol version mismatch",
            CellError::InvalidMessage => "Invalid message format",
            CellError::OutOfMemory => "Out of memory",
            CellError::QuotaExceeded => "Resource quota exceeded",
            CellError::RateLimited => "Rate limit exceeded",
            CellError::ResourceExhausted => "Resource exhausted",
            CellError::NotFound => "Resource not found",
            CellError::AlreadyExists => "Resource already exists",
            CellError::InvalidState => "Invalid state for operation",
            CellError::DependencyFailed => "Dependency check failed",
            CellError::InternalError => "Internal error",
            CellError::Panic => "Panic in cell",
            CellError::NotImplemented => "Feature not implemented",
        }
    }
}

impl ErrorCategory {
    pub open spec fn spec_name(self) -> Seq<char> {
        match self {
            ErrorCategory::Transport => "transport"@,
            ErrorCategory::Protocol => "protocol"@,
            ErrorCategory::Resource => "resource"@,
            ErrorCategory::State => "state"@,
            ErrorCategory::Internal => "internal"@,
        }
    }

    /// The lower-case name of the category.
    pub fn name(&self) -> (s: &'static str)
        ensures
            s@ == self.spec_name(),
    {
        match self {
            ErrorCategory::Transport => "transport",
            ErrorCategory::Protocol => "protocol",
            ErrorCategory::Resource => "resource",
            ErrorCategory::State => "state",
            ErrorCategory::Internal => "internal",
        }
    }
}

/// The hundreds digit of an error's code names its category: 1 transport,
/// 2 protocol, 3 resource, 4 state, 5 internal.
pub proof fn lemma_code_names_category(e: CellError)
    ensures
        (e.spec_category() == ErrorCategory::Transport) <==> (100 <= e.spec_code() < 200),
        (e.spec_category() == ErrorCategory::Protocol) <==> (200 <= e.spec_code() < 300),
        (e.spec_category() == ErrorCategory::Resource) <==> (300 <= e.spec_code() < 400),
        (e.spec_category() == ErrorCategory::State) <==> (400 <= e.spec_code() < 500),
        (e.spec_category() == ErrorCategory::Internal) <==> (500 <= e.spec_code() < 600),
        e.spec_is_transient() <==> e.spec_retry_delay() is Some,
{
}

/// Only transport and resource failures are worth retrying: an error is
/// transient exactly when its code lies in the 100s or the 300s, and every
/// protocol, state and internal error (codes in the 200s, 400s and 500s) is
/// permanent and has no retry delay.
pub proof fn lemma_transient_by_category(e: CellError)
    ensures
        e.spec_is_transient() <==> (e.spec_category() == ErrorCategory::Transport
            || e.spec_category() == ErrorCategory::Resource),
        e.spec_is_transient() <==> ((100 <= e.spec_code() < 200) || (300 <= e.spec_code() < 400)),
        (200 <= e.spec_code() < 300) || (400 <= e.spec_code() < 600) ==> !e.spec_is_transient()
            && e.spec_retry_delay() is None,
        e.spec_category() == ErrorCategory::Internal ==> !e.spec_is_transient()
            && e.spec_retry_delay() is None,
{
}

/// Rich error context for debugging and observability.
#[derive(Debug, Clone)]
pub struct ErrorContext {
    pub code: CellError,
    pub message: String,
    pub source: Option<String>,
    pub cell: Option<String>,
    pub operation: Option<String>,
}

pub open spec fn opt_text(o: Option<String>) -> Option<Seq<char>> {
    match o {
        Some(s) => Some(s@),
        None => None,
    }
}

/// The text an error context renders to:
/// `[code] message (cell: ..) (op: ..) <- source`, each suffix present only
/// when the field is set.
pub open spec fn context_text(
    code: CellError,
    message: Seq<char>,
    cell: Option<Seq<char>>,
    op: Option<Seq<char>>,
    source: Option<Seq<char>>,
) -> Seq<char> {
    "["@ + crate::text::decimal(code.spec_code() as nat) + "] "@ + message
        + (match cell { Some(c) => " (cell: "@ + c + ")"@, None => Seq::empty() })
        + (match op { Some(o) => " (op: "@ + o + ")"@, None => Seq::empty() })
        + (match source { Some(s) => " <- "@ + s, None => Seq::empty() })
}

impl ErrorContext {
    pub fn new(code: CellError) -> (r: Self)
        ensures
            r.code == code,
            r.message@ == code.spec_message(),
            r.source is None,
            r.cell is None,
            r.operation is None,
    {
        ErrorContext {
            code,
            message: String::from_str(code.message()),
            source: None,
            cell: None,
            operation: None,
        }
    }

    pub fn with_message(self, msg: &str) -> (r: Self)
        ensures
            r.message@ == msg@,
            r.code == self.code,
            r.source == self.source,
            r.cell == self.cell,
            r.operation == self.operation,
    {
        let mut s = self;
        s.message = String::from_str(msg);
        s
    }

    pub fn with_source(self, source: &str) -> (r: Self)
        ensures
            r.source matches Some(v) && v@ == source@,
            r.code == self.code,
            r.message == self.message,
            r.cell == self.cell,
            r.operation == self.operation,
    {
        let mut s = self;
        s.source = Some(String::from_str(source));
        s
    }

    pub fn with_cell(self, cell: &str) -> (r: Self)
        ensures
            r.cell matches Some(v) && v@ == cell@,
            r.code == self.code,
            r.message == self.message,
            r.source == self.source,
            r.operation == self.operation,
    {
        let mut s = self;
        s.cell = Some(String::from_str(cell));
        s
    }

    pub fn with_operation(self, op: &str) -> (r: Self)
        ensures
            r.operation matches Some(v) && v@ == op@,
            r.code == self.code,
            r.message == self.message,
            r.source == self.source,
            r.cell == self.cell,
    {
        let mut s = self;
        s.operation = Some(String::from_str(op));
        s
    }

    /// Renders the context as one line of text.
    pub fn to_text(&self) -> (t: String)
        ensures
            t@ == context_text(
                self.code,
                self.message@,
                opt_text(self.cell),
                opt_text(self.operation),
                opt_text(self.source),
            ),
    {
        let mut out = String::from_str("[");
        let num = u64_to_decimal(self.code.code() as u64);
        out.append(num.as_str());
        out.append("] ");
        out.append(self.message.as_str());
        let ghost after_msg = out@;
        match &self.cell {
            Some(c) => {
                out.append(" (cell: ");
                out.append(c.as_str());
                out.append(")");
            },
            None => {},
        }
        match &self.operation {
            Some(o) => {
                out.append(" (op: ");
                out.append(o.as_str());
                out.append(")");
            },
            None => {},
        }
        match &self.source {
            Some(s) => {
                out.append(" <- ");
                out.append(s.as_str());
            },
            None => {},
        }
        proof {
            assert(out@ =~= context_text(
                self.code,
                self.message@,
                opt_text(self.cell),
                opt_text(self.operation),
                opt_text(self.source),
            ));
        }
        out
    }
}

} // verus!

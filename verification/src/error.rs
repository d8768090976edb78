use vstd::prelude::*;

verus! {

/// The observable failure classes of the service.
#[derive(Debug, Clone, Copy, PartialEq, Eq, Structural)]
pub enum ErrorKind {
    /// Database unreachable or authentication rejected.
    Connection,
    /// A statement was rejected by the store.
    Query,
    /// A result row could not be decoded.
    ResultDecode,
    /// A required string field was blank.
    Validation,
    /// The target row is absent, or no row was affected.
    NotFound,
}

/// An internal failure, classified, with a human-readable message.
#[derive(Debug)]
pub enum ApiError {
    Connection(String),
    Query(String),
    ResultDecode(String),
    Validation(String),
    NotFound(String),
}

/// The failure class of an error.
pub open spec fn kind_of(e: ApiError) -> ErrorKind {
    match e {
        ApiError::Connection(_) => ErrorKind::Connection,
        ApiError::Query(_) => ErrorKind::Query,
        ApiError::ResultDecode(_) => ErrorKind::ResultDecode,
        ApiError::Validation(_) => ErrorKind::Validation,
        ApiError::NotFound(_) => ErrorKind::NotFound,
    }
}

/// The message carried by an error.
pub open spec fn message_of(e: ApiError) -> Seq<char> {
    match e {
        ApiError::Connection(m) => m@,
        ApiError::Query(m) => m@,
        ApiError::ResultDecode(m) => m@,
        ApiError::Validation(m) => m@,
        ApiError::NotFound(m) => m@,
    }
}

/// The HTTP status for a failure class: infrastructure and query failures
/// are 500, a validation failure is 400, a missing target is 404.
pub open spec fn status_of(k: ErrorKind) -> u16 {
    match k {
        ErrorKind::Connection => 500,
        ErrorKind::Query => 500,
        ErrorKind::ResultDecode => 500,
        ErrorKind::Validation => 400,
        ErrorKind::NotFound => 404,
    }
}

impl ApiError {
    /// The failure class of this error.
    pub fn kind(&self) -> (k: ErrorKind)
        ensures
            k == kind_of(*self),
    {
        match self {
            ApiError::Connection(_) => ErrorKind::Connection,
            ApiError::Query(_) => ErrorKind::Query,
            ApiError::ResultDecode(_) => ErrorKind::ResultDecode,
            ApiError::Validation(_) => ErrorKind::Validation,
            ApiError::NotFound(_) => ErrorKind::NotFound,
        }
    }

    /// The HTTP status code this error maps to.
    pub fn status(&self) -> (s: u16)
        ensures
            s == status_of(kind_of(*self)),
    {
        match self {
            ApiError::Connection(_) => 500,
            ApiError::Query(_) => 500,
            ApiError::ResultDecode(_) => 500,
            ApiError::Validation(_) => 400,
            ApiError::NotFound(_) => 404,
        }
    }

    /// The human-readable message of this error.
    pub fn message(&self) -> (m: &str)
        ensures
            m@ == message_of(*self),
    {
        match self {
            ApiError::Connection(m) => m.as_str(),
            ApiError::Query(m) => m.as_str(),
            ApiError::ResultDecode(m) => m.as_str(),
            ApiError::Validation(m) => m.as_str(),
            ApiError::NotFound(m) => m.as_str(),
        }
    }
}

} // verus!

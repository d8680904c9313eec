//! Error type shared by the library's validation and parsing functions.
use vstd::prelude::*;

verus! {

/// Errors reported to the admin UI.
#[derive(Debug, Clone)]
pub enum DomainError {
    /// The input was rejected; the text explains why.
    Validation(String),
    /// The requested object does not exist (or may not be named).
    NotFound,
    /// The requested name or object conflicts with an existing one.
    Conflict(String),
    /// The object is a system table that may not be touched this way.
    SystemTable(String),
    /// The request was malformed.
    BadRequest(String),
    /// An internal failure.
    Internal(String),
}

impl DomainError {
    /// The human readable text of the error.
    pub fn message(&self) -> (s: String)
        ensures
            self matches DomainError::Validation(m) ==> s@ == m@,
            self matches DomainError::Conflict(m) ==> s@ == m@,
            self matches DomainError::SystemTable(m) ==> s@ == m@,
            self matches DomainError::BadRequest(m) ==> s@ == m@,
            self matches DomainError::Internal(m) ==> s@ == m@,
            self is NotFound ==> s@ == "not found"@,
    {
        match self {
            DomainError::Validation(m) => m.clone(),
            DomainError::NotFound => String::from_str("not found"),
            DomainError::Conflict(m) => m.clone(),
            DomainError::SystemTable(m) => m.clone(),
            DomainError::BadRequest(m) => m.clone(),
            DomainError::Internal(m) => m.clone(),
        }
    }
}

/// `r` is a validation error whose text is `msg`.
pub open spec fn is_validation<T>(r: Result<T, DomainError>, msg: Seq<char>) -> bool {
    r matches Err(DomainError::Validation(m)) && m@ == msg
}

/// `r` is a system-table error whose text is `msg`.
pub open spec fn is_system_table_err<T>(r: Result<T, DomainError>, msg: Seq<char>) -> bool {
    r matches Err(DomainError::SystemTable(m)) && m@ == msg
}

/// `r` is a conflict error whose text is `msg`.
pub open spec fn is_conflict<T>(r: Result<T, DomainError>, msg: Seq<char>) -> bool {
    r matches Err(DomainError::Conflict(m)) && m@ == msg
}

} // verus!

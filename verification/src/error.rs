use vstd::prelude::*;

verus! {

/// Business errors surfaced by the service operations.
///
/// Every lookup failure is converted into one of these; no operation leaves
/// partial state behind when it returns an error.
#[derive(Clone, Copy, Debug, PartialEq, Eq, Structural)]
pub enum ServiceError {
    /// Malformed input, e.g. an unparseable timestamp.
    ValidationError,
    /// Unknown username or failed password check at login.
    InvalidCredentials,
    /// A login attempt while an unexpired session for the same user exists.
    SessionAlreadyActive,
    /// No session token was presented at all.
    NoSession,
    /// The presented session exists but its expiry has passed.
    Expired,
    /// Logout of a session whose expiry has already passed.
    AlreadyExpired,
    /// A group/project/tag/task/user/session lookup missed.
    NotFound,
    /// Duplicate registration, duplicate membership, or a tag deletion that
    /// would leave a project without tags.
    Conflict,
    /// The acting user does not match the claimed owner, or the session is
    /// invalid or expired.
    Unauthorized,
    /// The storage layer could not honour the request (identifier space or
    /// token collision).
    StorageFailure,
}

impl ServiceError {
    /// The human-readable message carried in failing responses.
    pub open spec fn spec_message(self) -> Seq<char> {
        match self {
            ServiceError::ValidationError => "Invalid input"@,
            ServiceError::InvalidCredentials => "Invalid credentials"@,
            ServiceError::SessionAlreadyActive => "User already has an active session"@,
            ServiceError::NoSession => "Session ID not found"@,
            ServiceError::Expired => "Login is needed, session expired"@,
            ServiceError::AlreadyExpired => "Already expired session"@,
            ServiceError::NotFound => "Not found"@,
            ServiceError::Conflict => "Conflict"@,
            ServiceError::Unauthorized => "Unauthorized action"@,
            ServiceError::StorageFailure => "Storage failure"@,
        }
    }

    /// Message text for a failing response body.
    pub fn message(&self) -> (r: &'static str)
        ensures
            r@ == self.spec_message(),
    {
        match self {
            ServiceError::ValidationError => "Invalid input",
            ServiceError::InvalidCredentials => "Invalid credentials",
            ServiceError::SessionAlreadyActive => "User already has an active session",
            ServiceError::NoSession => "Session ID not found",
            ServiceError::Expired => "Login is needed, session expired",
            ServiceError::AlreadyExpired => "Already expired session",
            ServiceError::NotFound => "Not found",
            ServiceError::Conflict => "Conflict",
            ServiceError::Unauthorized => "Unauthorized action",
            ServiceError::StorageFailure => "Storage failure",
        }
    }
}

} // verus!

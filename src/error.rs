use vstd::prelude::*;

verus! {

/// Failures of the library, one variant per kind of error the hub reports.
#[derive(Debug, Clone)]
pub enum Error {
    AuthenticationFailed(String),
    AuthorizationFailed(String),
    InvalidBranchId(String),
    ConnectionError(String),
    DatabaseError(String),
    RedisError(String),
    SerializationError(String),
    RoutingError(String),
    SyncConflict(String),
    InvalidMessage(String),
    RateLimitExceeded,
    Internal(String),
}

impl Error {
    /// Name of the error kind.
    pub open spec fn code_spec(&self) -> Seq<char> {
        match self {
            Error::AuthenticationFailed(_) => "AuthenticationFailed"@,
            Error::AuthorizationFailed(_) => "AuthorizationFailed"@,
            Error::InvalidBranchId(_) => "InvalidBranchId"@,
            Error::ConnectionError(_) => "ConnectionError"@,
            Error::DatabaseError(_) => "DatabaseError"@,
            Error::RedisError(_) => "RedisError"@,
            Error::SerializationError(_) => "SerializationError"@,
            Error::RoutingError(_) => "RoutingError"@,
            Error::SyncConflict(_) => "SyncConflict"@,
            Error::InvalidMessage(_) => "InvalidMessage"@,
            Error::RateLimitExceeded => "RateLimitExceeded"@,
            Error::Internal(_) => "Internal"@,
        }
    }

    /// Name of the error kind, as carried in the `code` of an error payload.
    pub fn code(&self) -> (r: &'static str)
        ensures
            r@ == self.code_spec(),
    {
        match self {
            Error::AuthenticationFailed(_) => "AuthenticationFailed",
            Error::AuthorizationFailed(_) => "AuthorizationFailed",
            Error::InvalidBranchId(_) => "InvalidBranchId",
            Error::ConnectionError(_) => "ConnectionError",
            Error::DatabaseError(_) => "DatabaseError",
            Error::RedisError(_) => "RedisError",
            Error::SerializationError(_) => "SerializationError",
            Error::RoutingError(_) => "RoutingError",
            Error::SyncConflict(_) => "SyncConflict",
            Error::InvalidMessage(_) => "InvalidMessage",
            Error::RateLimitExceeded => "RateLimitExceeded",
            Error::Internal(_) => "Internal",
        }
    }
}

} // verus!

//! The gateway's error taxonomy.  Authentication and authorization failures
//! are request-scoped outcomes, never process-level errors; configuration
//! problems carry a description for the operator.

use vstd::prelude::*;
use vstd::string::StringExecFns;

verus! {

/// Errors surfaced by the gateway's core operations.
#[derive(Debug, PartialEq, Eq)]
pub enum AppError {
    AuthenticationError(String),
    AuthorizationError(String),
    ConfigurationError(String),
    InputValidationError(String),
    RateLimitExceeded(String),
    ServerError(String),
    /// The password-hashing backend refused to produce a hash.
    HashingError,
}

/// The descriptive prefix of each error kind.
pub open spec fn spec_error_prefix(e: AppError) -> Seq<char> {
    match e {
        AppError::AuthenticationError(_) => "Authentication failed: "@,
        AppError::AuthorizationError(_) => "Not authorized: "@,
        AppError::ConfigurationError(_) => "Configuration error: "@,
        AppError::InputValidationError(_) => "Invalid input: "@,
        AppError::RateLimitExceeded(_) => "Rate limit exceeded: "@,
        AppError::ServerError(_) => "Internal server error: "@,
        AppError::HashingError => "Password hashing error"@,
    }
}

/// The detail text carried by the error, if any.
pub open spec fn spec_error_detail(e: AppError) -> Seq<char> {
    match e {
        AppError::AuthenticationError(m) => m@,
        AppError::AuthorizationError(m) => m@,
        AppError::ConfigurationError(m) => m@,
        AppError::InputValidationError(m) => m@,
        AppError::RateLimitExceeded(m) => m@,
        AppError::ServerError(m) => m@,
        AppError::HashingError => Seq::empty(),
    }
}

impl AppError {
    /// A human-readable description: the kind's prefix followed by the
    /// detail text.
    pub fn message(&self) -> (r: String)
        ensures
            r@ == spec_error_prefix(*self) + spec_error_detail(*self),
    {
        let (prefix, detail): (&str, &str) = match self {
            AppError::AuthenticationError(m) => ("Authentication failed: ", m.as_str()),
            AppError::AuthorizationError(m) => ("Not authorized: ", m.as_str()),
            AppError::ConfigurationError(m) => ("Configuration error: ", m.as_str()),
            AppError::InputValidationError(m) => ("Invalid input: ", m.as_str()),
            AppError::RateLimitExceeded(m) => ("Rate limit exceeded: ", m.as_str()),
            AppError::ServerError(m) => ("Internal server error: ", m.as_str()),
            AppError::HashingError => ("Password hashing error", ""),
        };
        let mut r = prefix.to_owned();
        r.append(detail);
        proof {
            if self is HashingError {
                reveal_strlit("");
                assert(r@ =~= spec_error_prefix(*self) + spec_error_detail(*self));
            }
        }
        r
    }
}

} // verus!

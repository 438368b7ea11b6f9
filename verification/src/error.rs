//! The closed taxonomy of domain failures.

use vstd::prelude::*;

verus! {

/// Every failure the domain logic can explicitly signal.
///
/// The set is closed: the translator handles each variant exhaustively, and
/// adding a variant forces an update of the translation table.
#[derive(Clone, Copy, Debug, PartialEq, Eq, Structural)]
pub enum Error {
    /// Supplied credentials failed verification.
    WrongCredentialsError,
    /// Server-side failure while issuing a token.
    JWTTokenCreationError,
    /// Presented token is malformed, expired, or fails its signature check.
    JWTTokenError,
    /// Request lacked a required authorization header.
    NotAuthHeaderError,
    /// Caller authenticated but lacks the required privilege.
    NoPermissionError,
    /// A header name could not be constructed.
    InvalidHeaderName,
    /// Authorization header present but malformed.
    InvalidAuthHeaderError,
}

impl Error {
    /// The fixed display string of each variant, as a sequence of characters.
    pub open spec fn spec_message(self) -> Seq<char> {
        match self {
            Error::WrongCredentialsError => "Wrong credentials error"@,
            Error::JWTTokenCreationError => "JWT creation error"@,
            Error::JWTTokenError => "JWT Token error"@,
            Error::NotAuthHeaderError => "Not authorized error"@,
            Error::NoPermissionError => "No permission error"@,
            Error::InvalidHeaderName => "Invalid header name error"@,
            Error::InvalidAuthHeaderError => "Invalid Auth Header error"@,
        }
    }

    /// The human-readable description of the failure kind.
    pub fn message(&self) -> (m: String)
        ensures
            m@ == self.spec_message(),
    {
        match self {
            Error::WrongCredentialsError => "Wrong credentials error".to_owned(),
            Error::JWTTokenCreationError => "JWT creation error".to_owned(),
            Error::JWTTokenError => "JWT Token error".to_owned(),
            Error::NotAuthHeaderError => "Not authorized error".to_owned(),
            Error::NoPermissionError => "No permission error".to_owned(),
            Error::InvalidHeaderName => "Invalid header name error".to_owned(),
            Error::InvalidAuthHeaderError => "Invalid Auth Header error".to_owned(),
        }
    }
}

} // verus!

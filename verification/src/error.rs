use bson::oid::Error as OidError;
use vstd::prelude::*;

verus! {

/// The single error type shared by every domain type of the library.
#[derive(Debug, Clone, Copy, PartialEq, Eq, Structural)]
pub enum Error {
    InvalidId,
    InvalidPhone,
    InvalidDateTime,
    InvalidAttributeValue,
    InvalidSessionStatus,
    InvalidToken,
    SlowDown,
}

impl Error {
    /// The human readable message of each error.
    pub fn message(&self) -> (r: &'static str)
        ensures
            r@ == self.spec_message(),
    {
        match self {
            Error::InvalidId => "invalid id",
            Error::InvalidPhone =>
                "invalid phone number: must be in E.164 country code format (e.g., +254712345678)",
            Error::InvalidDateTime => "invalid datetime format",
            Error::InvalidAttributeValue => "invalid dynamodb attribute type",
            Error::InvalidSessionStatus => "invalid session status",
            Error::InvalidToken => "invalid token",
            Error::SlowDown => "too many requests, slow down",
        }
    }

    pub open spec fn spec_message(&self) -> Seq<char> {
        match self {
            Error::InvalidId => "invalid id"@,
            Error::InvalidPhone =>
                "invalid phone number: must be in E.164 country code format (e.g., +254712345678)"@,
            Error::InvalidDateTime => "invalid datetime format"@,
            Error::InvalidAttributeValue => "invalid dynamodb attribute type"@,
            Error::InvalidSessionStatus => "invalid session status"@,
            Error::InvalidToken => "invalid token"@,
            Error::SlowDown => "too many requests, slow down"@,
        }
    }

    /// The variant's name, as `{:?}` prints it.
    pub fn debug_name(&self) -> (r: &'static str)
        ensures
            r@ == self.spec_debug_name(),
    {
        match self {
            Error::InvalidId => "InvalidId",
            Error::InvalidPhone => "InvalidPhone",
            Error::InvalidDateTime => "InvalidDateTime",
            Error::InvalidAttributeValue => "InvalidAttributeValue",
            Error::InvalidSessionStatus => "InvalidSessionStatus",
            Error::InvalidToken => "InvalidToken",
            Error::SlowDown => "SlowDown",
        }
    }

    pub open spec fn spec_debug_name(&self) -> Seq<char> {
        match self {
            Error::InvalidId => "InvalidId"@,
            Error::InvalidPhone => "InvalidPhone"@,
            Error::InvalidDateTime => "InvalidDateTime"@,
            Error::InvalidAttributeValue => "InvalidAttributeValue"@,
            Error::InvalidSessionStatus => "InvalidSessionStatus"@,
            Error::InvalidToken => "InvalidToken"@,
            Error::SlowDown => "SlowDown"@,
        }
    }
}

/// An error as the HTTP layer answers it.
#[derive(Debug, Clone, Copy, PartialEq, Eq, Structural)]
pub struct AuthError(pub Error);

impl From<Error> for AuthError {
    fn from(err: Error) -> (r: AuthError) {
        AuthError(err)
    }
}

impl vstd::std_specs::convert::FromSpecImpl<Error> for AuthError {
    open spec fn obeys_from_spec() -> bool {
        true
    }

    open spec fn from_spec(err: Error) -> AuthError {
        AuthError(err)
    }
}

/// `bson::oid::Error`, the error of parsing an object identifier.
#[verifier::external_type_specification]
#[verifier::external_body]
pub struct ExObjectIdError(OidError);

/// `chrono::ParseError`, the error of parsing a date-time.
#[verifier::external_type_specification]
#[verifier::external_body]
pub struct ExChronoParseError(chrono::ParseError);

impl From<OidError> for Error {
    fn from(_err: OidError) -> (r: Error) {
        Error::InvalidId
    }
}

impl vstd::std_specs::convert::FromSpecImpl<OidError> for Error {
    open spec fn obeys_from_spec() -> bool {
        true
    }

    open spec fn from_spec(err: OidError) -> Error {
        Error::InvalidId
    }
}

impl From<chrono::ParseError> for Error {
    fn from(_err: chrono::ParseError) -> (r: Error) {
        Error::InvalidDateTime
    }
}

impl vstd::std_specs::convert::FromSpecImpl<chrono::ParseError> for Error {
    open spec fn obeys_from_spec() -> bool {
        true
    }

    open spec fn from_spec(err: chrono::ParseError) -> Error {
        Error::InvalidDateTime
    }
}

/// The HTTP status with which a refused request is answered.
pub open spec fn spec_status_code(e: Error) -> u16 {
    match e {
        Error::SlowDown => 429,
        Error::InvalidToken => 401,
        _ => 500,
    }
}

impl AuthError {
    /// Too many requests for `SlowDown`, unauthorized for `InvalidToken`,
    /// internal server error for every other error.
    pub fn status_code(&self) -> (r: u16)
        ensures
            r == spec_status_code(self.0),
    {
        match self.0 {
            Error::SlowDown => 429,
            Error::InvalidToken => 401,
            _ => 500,
        }
    }
}

} // verus!

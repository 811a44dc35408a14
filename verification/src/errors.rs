//! The error type shared by the whole crate.

use vstd::prelude::*;
use jsonwebtoken::errors::Error as JwtError;
use serde_json::Error as JsonError;
use vstd::std_specs::convert::FromSpecImpl;

verus! {

/// The error of `serde_json`, carried through as an opaque value.
#[verifier::external_type_specification]
#[verifier::external_body]
pub struct ExJsonError(JsonError);

/// The error of `jsonwebtoken`, carried through as an opaque value.
#[verifier::external_type_specification]
#[verifier::external_body]
pub struct ExJwtError(JwtError);

/// Everything that can go wrong in a session.
///
/// Failures of calls that this crate makes itself keep the error of the
/// crate that was called. Failures of the transport, which the caller
/// drives, arrive as their text.
#[derive(Debug)]
pub enum Error {
    /// No frame was there to read; the connection ends without a report.
    IgnorableError,
    /// A bearer token that verifies but lacks the claims of a session.
    InvalidJWT,
    /// A signing or verification key that could not be read.
    InvalidJWTKey,
    /// A disclosure proof whose status is anything but valid.
    InvalidProofStatus,
    /// A required configuration key that is not set.
    EnvironmentError(String),
    /// Input that does not have the expected shape.
    ParseError(String),
    /// JSON that could not be written or read.
    SerializationError(JsonError),
    /// A failed HTTP exchange with the credential server.
    RequestError(String),
    /// A failed read or write on a websocket.
    WebsocketError(String),
    /// A token that could not be signed or did not verify.
    JWTError(JwtError),
    /// A failed read or write on a file.
    IoError(String),
}

impl From<String> for Error {
    fn from(err: String) -> (r: Self) {
        Error::ParseError(err)
    }
}

impl FromSpecImpl<String> for Error {
    open spec fn obeys_from_spec() -> bool {
        true
    }

    open spec fn from_spec(err: String) -> Self {
        Error::ParseError(err)
    }
}

impl From<JsonError> for Error {
    fn from(err: JsonError) -> (r: Self) {
        Error::SerializationError(err)
    }
}

impl FromSpecImpl<JsonError> for Error {
    open spec fn obeys_from_spec() -> bool {
        true
    }

    open spec fn from_spec(err: JsonError) -> Self {
        Error::SerializationError(err)
    }
}

impl From<JwtError> for Error {
    fn from(err: JwtError) -> (r: Self) {
        Error::JWTError(err)
    }
}

impl FromSpecImpl<JwtError> for Error {
    open spec fn obeys_from_spec() -> bool {
        true
    }

    open spec fn from_spec(err: JwtError) -> Self {
        Error::JWTError(err)
    }
}

} // verus!

//! The error vocabulary surfaced by the core.
//!
//! Authentication and authorization failures carry a stable, machine-readable
//! kind and deliberately reveal nothing beyond it: a caller cannot tell a
//! wrong password from an unknown email from the response alone.

use vstd::prelude::*;

verus! {

/// Rejection raised while validating a bearer token or checking the
/// capability of the principal it names.
#[derive(Clone, Copy, Debug, PartialEq, Eq, Structural)]
pub enum AuthorizationError {
    /// The token resolved to a principal whose capability does not cover the
    /// requested operation.
    Unauthorized,
    /// A token whose recorded expiry has passed.
    ExpiredToken,
    /// A token no principal currently holds.
    InvalidToken,
    /// No token was presented at all.
    NoToken,
}

/// Rejection raised while logging in with an email and password.
#[derive(Clone, Debug)]
pub enum AuthenticationError {
    InvalidEmail,
    InvalidPassword,
    /// The uniform rejection for a failed login: an unknown email and a
    /// wrong password surface as this same kind.
    InvalidCredentials,
    /// The store refused to persist a freshly generated token.
    CouldNotGenerateAuthToken,
    InvalidLogin(String),
}

/// Faults of the process itself rather than of a request.
#[derive(Clone, Debug)]
pub enum ServerError {
    SerializationError(String),
}

/// Transient faults of the principal store; the one kind a caller may retry.
#[derive(Clone, Debug)]
pub enum DbError {
    DatabaseConnectionError(String),
    DatabaseQueryError(String),
}

/// Rejection of a malformed field in a submitted body.
#[derive(Clone, Copy, Debug, PartialEq, Eq, Structural)]
pub enum ValidationError {
    Required,
    AlreadyExists,
}

/// A validation failure tied to the field it concerns.
#[derive(Debug)]
pub struct InputError {
    pub field: (String, ValidationError),
}

/// The union of every rejection kind the core can surface.
#[derive(Debug)]
pub enum Error {
    Server(ServerError),
    Db(DbError),
    Input(InputError),
    Authentication(AuthenticationError),
    Authorization(AuthorizationError),
}

} // verus!

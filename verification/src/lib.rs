//! Token-gated authorization with a permission-change notification hub.
//!
//! The crate verifies the core of a small backend: a credential codec built
//! on PBKDF2 and constant-time comparison, a session manager that issues and
//! validates opaque bearer tokens, a capability-predicate gate, and a
//! concurrent subscriber registry that fans permission-update events out to
//! the live connections interested in them.

pub mod connection;
pub mod credential;
pub mod errors;
pub mod gate;
pub mod hub;
pub mod models;
pub mod principal;
pub mod session;

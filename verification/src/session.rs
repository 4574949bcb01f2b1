//! The session manager: turns an email and password into a fresh bearer
//! token, and a presented token back into a principal.
//!
//! The principal store is an external collaborator reached over pooled
//! connections, so the manager's decisions are stated as functions of the
//! store's answers: the caller performs the lookup or the persist and hands
//! its outcome in, and every decision taken on that outcome is verified
//! here, whatever the store answered.

use vstd::prelude::*;
use crate::credential::{constant_time_equal, hash_password, pbkdf2_key, DatabaseConfig};
use crate::errors::{AuthenticationError, AuthorizationError};
use crate::principal::InternalUser;

verus! {

/// The submitted password, derived under the principal's stored salt and
/// the configured iteration count, matches the stored credential.
pub open spec fn password_matches(u: InternalUser, password: Seq<char>, iterations: u32) -> bool {
    pbkdf2_key(password, u.salt@, iterations) == u.password@
}

/// What credential verification decides, given the store's answer to the
/// email lookup. An unknown email and a wrong password both land in
/// `InvalidCredentials`: the two are indistinguishable from outside, so a
/// caller cannot enumerate accounts.
pub open spec fn login_check_spec(
    found: Option<InternalUser>,
    password: Seq<char>,
    iterations: u32,
) -> Result<i64, AuthenticationError> {
    match found {
        Option::None => Result::Err(AuthenticationError::InvalidCredentials),
        Option::Some(u) => if password_matches(u, password, iterations) {
            Result::Ok(u.id)
        } else {
            Result::Err(AuthenticationError::InvalidCredentials)
        },
    }
}

/// Checks a submitted password against whatever principal the email lookup
/// found, comparing the derived credential in constant time. Returns the
/// principal's identifier exactly on a match.
pub fn verify_credentials(
    found: &Option<InternalUser>,
    password: &str,
    config: &DatabaseConfig,
) -> (r: Result<i64, AuthenticationError>)
    requires
        config.wf(),
    ensures
        r == login_check_spec(*found, password@, config.iterations),
{
    match found {
        Option::None => Result::Err(AuthenticationError::InvalidCredentials),
        Option::Some(u) => {
            let submitted = hash_password(password, u.salt.as_str(), config.iterations);
            if constant_time_equal(submitted.as_slice(), u.password.as_slice()) {
                Result::Ok(u.id)
            } else {
                Result::Err(AuthenticationError::InvalidCredentials)
            }
        },
    }
}

/// What login returns once the store has answered the token persist: the
/// fresh token on success, `CouldNotGenerateAuthToken` when the store
/// failed or handed back a principal without one.
pub open spec fn login_finish_spec(issued: Option<InternalUser>) -> Result<String, AuthenticationError> {
    match issued {
        Option::None => Result::Err(AuthenticationError::CouldNotGenerateAuthToken),
        Option::Some(u) => match u.auth_token {
            Option::None => Result::Err(AuthenticationError::CouldNotGenerateAuthToken),
            Option::Some(t) => Result::Ok(t),
        },
    }
}

/// Extracts the token a successful login hands back to the caller.
pub fn complete_login(issued: Option<InternalUser>) -> (r: Result<String, AuthenticationError>)
    ensures
        r == login_finish_spec(issued),
{
    match issued {
        Option::None => Result::Err(AuthenticationError::CouldNotGenerateAuthToken),
        Option::Some(u) => match u.auth_token {
            Option::None => Result::Err(AuthenticationError::CouldNotGenerateAuthToken),
            Option::Some(t) => Result::Ok(t),
        },
    }
}

/// The no-token step of resolving a bearer header: an absent header is
/// `NoToken`, a present one hands its token on for the store lookup.
pub fn require_token(bearer: &Option<String>) -> (r: Result<&String, AuthorizationError>)
    ensures
        bearer matches Some(t) ==> r == Result::<&String, AuthorizationError>::Ok(t),
        bearer is None ==> r == Result::<&String, AuthorizationError>::Err(AuthorizationError::NoToken),
{
    match bearer {
        Option::Some(t) => Result::Ok(t),
        Option::None => Result::Err(AuthorizationError::NoToken),
    }
}

/// What resolving a presented token decides, given the store's answer to
/// the token lookup: a token no principal holds and a stale token are both
/// `InvalidToken`, indistinguishably.
pub open spec fn resolve_spec(found: Option<InternalUser>, now: i64) -> Result<InternalUser, AuthorizationError> {
    match found {
        Option::None => Result::Err(AuthorizationError::InvalidToken),
        Option::Some(u) => if u.token_fresh(now) {
            Result::Ok(u)
        } else {
            Result::Err(AuthorizationError::InvalidToken)
        },
    }
}

/// Finishes resolving a presented token: the principal the store found, if
/// its recorded expiry has not passed.
pub fn resolve_found(found: Option<InternalUser>, now: i64) -> (r: Result<InternalUser, AuthorizationError>)
    ensures
        r == resolve_spec(found, now),
{
    match found {
        Option::None => Result::Err(AuthorizationError::InvalidToken),
        Option::Some(u) => {
            let fresh = match u.expires_on {
                Option::Some(e) => now <= e,
                Option::None => false,
            };
            if fresh {
                Result::Ok(u)
            } else {
                Result::Err(AuthorizationError::InvalidToken)
            }
        },
    }
}

/// A wrong password and an unknown email produce the identical externally
/// visible error: the uniform `InvalidCredentials`.
pub proof fn lemma_login_failure_uniform(u: InternalUser, password: Seq<char>, iterations: u32)
    requires
        !password_matches(u, password, iterations),
    ensures
        login_check_spec(Option::Some(u), password, iterations)
            == login_check_spec(Option::None, password, iterations),
        login_check_spec(Option::None, password, iterations)
            == Result::<i64, AuthenticationError>::Err(AuthenticationError::InvalidCredentials),
{
}

/// Replacing a principal's token invalidates the old one: once the store
/// holds the updated record, no principal holds the old token any more, so
/// its lookup finds nothing and resolving it fails with `InvalidToken`.
/// The premise that no other principal held the same string is what random
/// generation makes overwhelmingly likely; it is assumed, not proved.
pub proof fn lemma_reissue_invalidates_old_token(
    before: Seq<InternalUser>,
    after: Seq<InternalUser>,
    i: int,
    old_token: Seq<char>,
    now: i64,
)
    requires
        0 <= i < before.len(),
        after.len() == before.len(),
        forall|j: int| 0 <= j < before.len() && j != i
            ==> !(#[trigger] before[j]).holds_token(old_token),
        forall|j: int| 0 <= j < after.len() && j != i ==> after[j] == before[j],
        !after[i].holds_token(old_token),
    ensures
        forall|j: int| 0 <= j < after.len() ==> !(#[trigger] after[j]).holds_token(old_token),
        resolve_spec(Option::None, now)
            == Result::<InternalUser, AuthorizationError>::Err(AuthorizationError::InvalidToken),
{
}

} // verus!

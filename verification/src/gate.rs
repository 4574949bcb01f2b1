//! The authorization gate: one admission decision composed from token
//! resolution and a capability predicate.
//!
//! A route or connection upgrade is set up once with a predicate from a
//! closed set; every inbound request then passes the same pure gate. The
//! gate holds no state of its own, so one instance serves any number of
//! concurrent calls.

use vstd::prelude::*;
use crate::errors::AuthorizationError;
use crate::principal::InternalUser;
use crate::session::{resolve_found, resolve_spec};

verus! {

/// The closed set of capability predicates a route can be set up with.
#[derive(Clone, Copy, Debug, PartialEq, Eq, Structural)]
pub enum CapabilityPredicate {
    /// Admits every resolved principal.
    Default,
    /// Admits a resolved principal exactly when its capability flag is set.
    AdminOnly,
}

/// Whether the predicate admits this principal.
pub open spec fn admits(pred: CapabilityPredicate, u: InternalUser) -> bool {
    match pred {
        CapabilityPredicate::Default => true,
        CapabilityPredicate::AdminOnly => u.admin,
    }
}

/// The admin-only predicate: admits the principal exactly when its
/// capability flag is set, and rejects it as `Unauthorized` otherwise.
pub fn admin(iuser: InternalUser) -> (r: Result<InternalUser, AuthorizationError>)
    ensures
        iuser.admin ==> r == Result::<InternalUser, AuthorizationError>::Ok(iuser),
        !iuser.admin ==> r
            == Result::<InternalUser, AuthorizationError>::Err(AuthorizationError::Unauthorized),
{
    if iuser.admin {
        Result::Ok(iuser)
    } else {
        Result::Err(AuthorizationError::Unauthorized)
    }
}

/// The default predicate: admits every resolved principal.
pub fn default(iuser: InternalUser) -> (r: Result<InternalUser, AuthorizationError>)
    ensures
        r == Result::<InternalUser, AuthorizationError>::Ok(iuser),
{
    Result::Ok(iuser)
}

/// Dispatches over the closed predicate set.
pub fn apply_predicate(pred: CapabilityPredicate, iuser: InternalUser) -> (r: Result<
    InternalUser,
    AuthorizationError,
>)
    ensures
        admits(pred, iuser) ==> r == Result::<InternalUser, AuthorizationError>::Ok(iuser),
        !admits(pred, iuser) ==> r
            == Result::<InternalUser, AuthorizationError>::Err(AuthorizationError::Unauthorized),
{
    match pred {
        CapabilityPredicate::Default => default(iuser),
        CapabilityPredicate::AdminOnly => admin(iuser),
    }
}

/// The whole admission decision: `NoToken` without a bearer header,
/// then whatever resolution decides on the store's lookup answer, then the
/// predicate on the resolved principal.
pub open spec fn admission_spec(
    bearer_present: bool,
    found: Option<InternalUser>,
    now: i64,
    pred: CapabilityPredicate,
) -> Result<InternalUser, AuthorizationError> {
    if !bearer_present {
        Result::Err(AuthorizationError::NoToken)
    } else {
        match resolve_spec(found, now) {
            Result::Err(e) => Result::Err(e),
            Result::Ok(u) => if admits(pred, u) {
                Result::Ok(u)
            } else {
                Result::Err(AuthorizationError::Unauthorized)
            },
        }
    }
}

/// Decides admission for a plain request or a connection upgrade.
/// `bearer_present` says whether an authorization header was presented at
/// all; `found` is the store's answer to looking the presented token up.
/// Purely a gate: beyond that store read, performed by the caller, it has
/// no side effects.
pub fn check_authorized(
    bearer_present: bool,
    found: Option<InternalUser>,
    now: i64,
    pred: CapabilityPredicate,
) -> (r: Result<InternalUser, AuthorizationError>)
    ensures
        r == admission_spec(bearer_present, found, now, pred),
{
    if !bearer_present {
        return Result::Err(AuthorizationError::NoToken);
    }
    match resolve_found(found, now) {
        Result::Err(e) => Result::Err(e),
        Result::Ok(u) => apply_predicate(pred, u),
    }
}

/// Without a bearer header admission always fails with `NoToken`, whatever
/// the store would have answered; and a token the store knows no holder of
/// always resolves to `InvalidToken`.
pub proof fn lemma_resolve_failures(
    found: Option<InternalUser>,
    now: i64,
    pred: CapabilityPredicate,
)
    ensures
        admission_spec(false, found, now, pred)
            == Result::<InternalUser, AuthorizationError>::Err(AuthorizationError::NoToken),
        resolve_spec(Option::None, now)
            == Result::<InternalUser, AuthorizationError>::Err(AuthorizationError::InvalidToken),
{
}

/// The admin-only predicate admits a principal exactly when its capability
/// flag is set; the default predicate admits every resolved principal.
pub proof fn lemma_predicate_admission(u: InternalUser)
    ensures
        admits(CapabilityPredicate::AdminOnly, u) == u.admin,
        admits(CapabilityPredicate::Default, u),
{
}

} // verus!

//! The principal: an authenticated identity with credential material, a
//! capability flag, and the opaque bearer token it currently owns.

use vstd::prelude::*;
use crate::credential::{
    hash_password, is_token_char, pbkdf2_key, random_string, DatabaseConfig,
    TOKEN_LIFETIME_SECONDS,
};

verus! {

/// An authenticated identity as the principal store records it.
/// Timestamps are seconds of Unix time.
#[derive(Clone, Debug)]
pub struct InternalUser {
    pub id: i64,
    pub name: String,
    pub email: String,
    /// The salted PBKDF2 credential; never serialized outward.
    pub password: Vec<u8>,
    pub salt: String,
    pub created_on: i64,
    pub last_login: Option<i64>,
    /// The opaque bearer token this principal currently owns, if any.
    pub auth_token: Option<String>,
    pub expires_on: Option<i64>,
    /// The capability flag: whether admin-only routes admit this principal.
    pub admin: bool,
}

impl InternalUser {
    /// A principal is well formed when a held token comes with an expiry.
    pub open spec fn wf(&self) -> bool {
        self.auth_token is Some ==> self.expires_on is Some
    }

    /// The principal currently holds exactly this token string.
    pub open spec fn holds_token(&self, token: Seq<char>) -> bool {
        self.auth_token matches Some(t) && t@ == token
    }

    /// The recorded expiry lies at or after `now`. A missing expiry counts
    /// as stale, so a malformed token never passes as fresh.
    pub open spec fn token_fresh(&self, now: i64) -> bool {
        self.expires_on matches Some(e) && now <= e
    }
}

/// A user as a caller submits it, the password still plain.
#[derive(Clone, Debug)]
pub struct SubmitInternalUser {
    pub name: String,
    pub email: String,
    pub password: String,
}

/// The stored form of a new principal, its credential already derived.
#[derive(Clone, Debug)]
pub struct CreateInternalUser {
    pub name: String,
    pub email: String,
    pub password: Vec<u8>,
    pub salt: String,
    pub created_on: i64,
    pub admin: bool,
}

/// A credential-changing update to an existing principal.
#[derive(Clone, Debug)]
pub struct UpdateInternalUser {
    pub id: i64,
    pub name: String,
    pub email: String,
    pub password: Vec<u8>,
    pub salt: String,
}

/// Replaces the principal's bearer token: a fresh random token, a stamped
/// last login, and an expiry two hours from `now`. Identity and credential
/// fields are untouched. The previous token is overwritten, so it ceases to
/// resolve the moment the new record is persisted.
pub fn issue_token(user: &mut InternalUser, now: i64, api_key_length: usize)
    requires
        now <= i64::MAX - TOKEN_LIFETIME_SECONDS,
    ensures
        final(user).id == old(user).id,
        final(user).name == old(user).name,
        final(user).email == old(user).email,
        final(user).password == old(user).password,
        final(user).salt == old(user).salt,
        final(user).created_on == old(user).created_on,
        final(user).admin == old(user).admin,
        final(user).last_login == Some(now),
        final(user).expires_on matches Some(e) && e == now + TOKEN_LIFETIME_SECONDS,
        final(user).auth_token matches Some(t) && t@.len() == api_key_length
            && forall|i: int| 0 <= i < t@.len() ==> is_token_char(#[trigger] t@[i]),
        final(user).token_fresh(now),
        final(user).wf(),
{
    user.auth_token = Some(random_string(api_key_length));
    user.last_login = Some(now);
    user.expires_on = Some(now + TOKEN_LIFETIME_SECONDS);
}

/// Builds the stored form of a new principal: a fresh salt of the
/// configured length and the credential PBKDF2 derives from it.
pub fn new_user_record(
    new: SubmitInternalUser,
    is_admin: bool,
    now: i64,
    config: &DatabaseConfig,
) -> (r: CreateInternalUser)
    requires
        config.wf(),
    ensures
        r.name == new.name,
        r.email == new.email,
        r.salt@.len() == config.salt_length,
        r.password@ == pbkdf2_key(new.password@, r.salt@, config.iterations),
        r.created_on == now,
        r.admin == is_admin,
{
    let user_salt = random_string(config.salt_length);
    let hashed = hash_password(new.password.as_str(), user_salt.as_str(), config.iterations);
    CreateInternalUser {
        name: new.name,
        email: new.email,
        password: hashed,
        salt: user_salt,
        created_on: now,
        admin: is_admin,
    }
}

/// Builds the update record for an existing principal together with the
/// fresh bearer token the update carries: a new salt, the credential
/// rehashed under it, and a token of the configured length.
pub fn update_user_record(
    by_id: i64,
    new: SubmitInternalUser,
    config: &DatabaseConfig,
) -> (r: (UpdateInternalUser, String))
    requires
        config.wf(),
    ensures
        r.0.id == by_id,
        r.0.name == new.name,
        r.0.email == new.email,
        r.0.salt@.len() == config.salt_length,
        r.0.password@ == pbkdf2_key(new.password@, r.0.salt@, config.iterations),
        r.1@.len() == config.api_key_length,
        forall|i: int| 0 <= i < r.1@.len() ==> is_token_char(#[trigger] r.1@[i]),
{
    let user_salt = random_string(config.salt_length);
    let hashed = hash_password(new.password.as_str(), user_salt.as_str(), config.iterations);
    let new_token = random_string(config.api_key_length);
    (
        UpdateInternalUser {
            id: by_id,
            name: new.name,
            email: new.email,
            password: hashed,
            salt: user_salt,
        },
        new_token,
    )
}

} // verus!

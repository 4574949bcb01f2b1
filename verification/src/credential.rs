//! The credential codec: PBKDF2 key derivation, constant-time comparison,
//! and the random alphanumeric strings that salts and bearer tokens are
//! made of.

use vstd::prelude::*;
use rand::{thread_rng, Rng};

verus! {

/// Length in bytes of a derived credential: the output length of SHA-512.
pub const CREDENTIAL_LEN: usize = 64;

/// Seconds a freshly issued bearer token stays valid: 120 minutes.
pub const TOKEN_LIFETIME_SECONDS: i64 = 7200;

/// The 64-byte key that PBKDF2-HMAC-SHA512 derives from a password, a salt
/// and an iteration count. The derivation is a pure function of these three
/// arguments; nothing else is assumed of its value.
pub uninterp spec fn pbkdf2_key(password: Seq<char>, salt: Seq<char>, iterations: u32) -> Seq<u8>;

/// A character that random salts and bearer tokens are drawn from.
pub open spec fn is_token_char(c: char) -> bool {
    ('a' <= c && c <= 'z') || ('A' <= c && c <= 'Z') || ('0' <= c && c <= '9')
}

/// Tunable parameters of credential hashing and token generation.
pub struct DatabaseConfig {
    /// PBKDF2 iteration count, tunable so offline brute force stays costly.
    pub iterations: u32,
    /// Length of the salt generated for a new credential.
    pub salt_length: usize,
    /// Length of a freshly issued bearer token.
    pub api_key_length: usize,
}

impl DatabaseConfig {
    /// A usable configuration has a positive iteration count.
    pub open spec fn wf(&self) -> bool {
        self.iterations >= 1
    }

    pub fn default() -> (r: DatabaseConfig)
        ensures
            r.iterations == 100,
            r.salt_length == 12,
            r.api_key_length == 12,
            r.wf(),
    {
        DatabaseConfig { iterations: 100, salt_length: 12, api_key_length: 12 }
    }
}

/// Derives the fixed-length credential for a password under a salt and an
/// iteration count. Deterministic: equal inputs always yield an equal key.
///
/// Relies on ring's pbkdf2::derive with PBKDF2_HMAC_SHA512: it fills the
/// 64-byte output buffer with a key that depends on the password, the salt
/// and the iteration count alone.
#[verifier::external_body]
pub fn hash_password(password: &str, salt: &str, iterations: u32) -> (r: Vec<u8>)
    requires
        iterations >= 1,
    ensures
        r@ == pbkdf2_key(password@, salt@, iterations),
        r@.len() == CREDENTIAL_LEN,
{
    let mut out = [0u8; 64];
    ring::pbkdf2::derive(
        ring::pbkdf2::PBKDF2_HMAC_SHA512,
        core::num::NonZeroU32::new(iterations).unwrap(),
        salt.as_bytes(),
        password.as_bytes(),
        &mut out,
    );
    out.to_vec()
}

/// Relies on ring's constant_time::verify_slices_are_equal: it returns Ok
/// exactly when the two slices hold the same bytes, compared in time
/// independent of where the first mismatching byte lies.
#[verifier::external_body]
fn ct_bytes_equal(a: &[u8], b: &[u8]) -> (r: bool)
    ensures
        r == (a@ == b@),
{
    ring::constant_time::verify_slices_are_equal(a, b).is_ok()
}

/// Compares a submitted credential with a stored one without revealing,
/// through timing, where the first mismatching byte lies. A length mismatch
/// yields false rather than a failure.
pub fn constant_time_equal(a: &[u8], b: &[u8]) -> (r: bool)
    ensures
        r == (a@ == b@),
        a@.len() != b@.len() ==> !r,
{
    ct_bytes_equal(a, b)
}

/// Draws a fresh string of random alphanumeric characters.
///
/// Relies on rand's thread-local generator with the Alphanumeric
/// distribution: taking n samples yields exactly n characters, each from
/// [A-Za-z0-9].
#[verifier::external_body]
pub fn random_string(n: usize) -> (r: String)
    ensures
        r@.len() == n,
        forall|i: int| 0 <= i < r@.len() ==> is_token_char(#[trigger] r@[i]),
{
    thread_rng()
        .sample_iter(&rand::distributions::Alphanumeric)
        .take(n)
        .map(char::from)
        .collect()
}

/// Key derivation is deterministic: two derivations from the same password,
/// salt and iteration count yield the same credential.
pub proof fn lemma_derive_deterministic(
    p1: Seq<char>, s1: Seq<char>, i1: u32,
    p2: Seq<char>, s2: Seq<char>, i2: u32,
)
    requires
        p1 == p2,
        s1 == s2,
        i1 == i2,
    ensures
        pbkdf2_key(p1, s1, i1) == pbkdf2_key(p2, s2, i2),
{
}

/// Credential comparison is symmetric, and byte strings of different
/// lengths never compare equal.
pub proof fn lemma_constant_time_equal_symmetric(a: Seq<u8>, b: Seq<u8>)
    ensures
        (a == b) == (b == a),
        a.len() != b.len() ==> a != b,
{
}

} // verus!

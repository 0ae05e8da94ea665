//! Password hashing and session tokens, from bcrypt and rapina.

use vstd::prelude::*;

verus! {

#[verifier::external_type_specification]
#[verifier::external_body]
pub struct ExAuthConfig(rapina::auth::AuthConfig);

/// What `bcrypt::verify` yields for a password and a stored hash: whether
/// they match, or `None` where the hash cannot be read.
pub uninterp spec fn bcrypt_check(password: Seq<char>, hash: Seq<char>) -> Option<bool>;

/// Relies on `bcrypt::hash`: the salt is random, so of the text only this
/// is promised: `bcrypt::verify` accepts the same password against it (both
/// truncate the password alike). `None` stands for its error (a cost outside
/// 4 to 31, or no randomness to be had).
#[verifier::external_body]
pub(crate) fn hash_password(password: &str, cost: u32) -> (r: Option<String>)
    ensures
        r matches Some(h) ==> bcrypt_check(password@, h@) == Some(true),
{
    bcrypt::hash(password, cost).ok()
}

/// Relies on `bcrypt::verify`: the answer depends on the password and the
/// hash alone.
#[verifier::external_body]
pub(crate) fn check_password(password: &str, hash: &str) -> (r: Option<bool>)
    ensures
        r == bcrypt_check(password@, hash@),
{
    bcrypt::verify(password, hash).ok()
}

/// Relies on `rapina::auth::AuthConfig::encode`: signs the claims (subject,
/// expiry, issue time) with the configured secret. Nothing is promised of
/// the text; `None` stands for its error.
#[verifier::external_body]
pub(crate) fn encode_token(
    config: &rapina::auth::AuthConfig,
    subject: String,
    issued_at: u64,
    expires_at: u64,
) -> (r: Option<String>) {
    config.encode(&rapina::auth::Claims { sub: subject, exp: expires_at, iat: issued_at }).ok()
}

/// Relies on `rapina::auth::AuthConfig::expiration`: the lifetime, in
/// seconds, that the configuration gives each token.
#[verifier::external_body]
pub(crate) fn token_lifetime(config: &rapina::auth::AuthConfig) -> (r: u64) {
    config.expiration()
}

} // verus!

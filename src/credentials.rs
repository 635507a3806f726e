//! Password digests, fresh identifiers and tokens, and the clock.

use vstd::prelude::*;

use crate::responses::CustomResponses;

verus! {

/// What bcrypt's verification says of `password` against `digest`:
/// `None` when the digest is malformed.
pub uninterp spec fn digest_check(password: Seq<char>, digest: Seq<char>) -> Option<bool>;

/// The shape of a digest made at the default cost: 60 characters, starting
/// with `$2b$12$`.
pub open spec fn digest_shaped(s: Seq<char>) -> bool {
    s.len() == 60 && s.take(7) == "$2b$12$"@
}

/// Relies on bcrypt::hash at the default cost: the salt is random, a
/// digest it returns verifies against the password it was made from, and
/// it is written as `$2b$12$` followed by 22 salt and 31 hash characters.
#[verifier::external_body]
fn bcrypt_hash(password: &str) -> (r: Option<String>)
    ensures
        r is Some ==> digest_check(password@, r->0@) == Some(true),
        r is Some ==> digest_shaped(r->0@),
{
    bcrypt::hash(password, bcrypt::DEFAULT_COST).ok()
}

/// Relies on bcrypt::verify: the outcome depends on the password and the
/// digest alone.
#[verifier::external_body]
fn bcrypt_verify(password: &str, digest: &str) -> (r: Option<bool>)
    ensures
        r == digest_check(password@, digest@),
{
    bcrypt::verify(password, digest).ok()
}

/// Relies on bson's ObjectId::new and ObjectId::to_hex: a fresh identifier
/// written as 24 hexadecimal digits.
#[verifier::external_body]
pub(crate) fn new_object_id() -> (r: String)
    ensures
        r@.len() == 24,
{
    mongodb::bson::oid::ObjectId::new().to_hex()
}

/// Relies on bson's Uuid::new (a random version-4 UUID) and its `Display`,
/// which writes the 36-character hyphenated form.
#[verifier::external_body]
pub(crate) fn new_token() -> (r: String)
    ensures
        r@.len() == 36,
{
    mongodb::bson::uuid::Uuid::new().to_string()
}

/// Relies on chrono's Utc::now: the current time, in milliseconds since the
/// Unix epoch.
#[verifier::external_body]
pub(crate) fn now_millis() -> (r: i64) {
    chrono::Utc::now().timestamp_millis()
}

/// Hashes a password with a fresh random salt. A failure of the hashing
/// backend is an internal error.
pub fn hash_password(password: &str) -> (r: Result<String, CustomResponses>)
    ensures
        r is Ok ==> digest_check(password@, r->Ok_0@) == Some(true) && digest_shaped(r->Ok_0@),
        r is Err ==> r->Err_0 == CustomResponses::InternalServerError,
{
    match bcrypt_hash(password) {
        Some(h) => Ok(h),
        None => Err(CustomResponses::InternalServerError),
    }
}

/// Checks `password` against a stored digest; a malformed digest is an
/// internal error.
pub fn verify_password(password: &str, digest: &str) -> (r: Result<bool, CustomResponses>)
    ensures
        r == (match digest_check(password@, digest@) {
            Some(b) => Ok(b),
            None => Err(CustomResponses::InternalServerError),
        }),
{
    match bcrypt_verify(password, digest) {
        Some(b) => Ok(b),
        None => Err(CustomResponses::InternalServerError),
    }
}

} // verus!

//! The password strength policy and the shape check of e-mail addresses.

use vstd::prelude::*;

use crate::responses::CustomResponses;

verus! {

/// Why a candidate password was refused by the strength policy.
#[derive(Clone, Copy, Debug, PartialEq, Eq, Structural)]
pub enum PasswordRejection {
    TooShort,
    TooCommon,
    TooSimple,
    NonAsciiPassword,
    InternalError,
}

/// Number of bytes that `c` takes in UTF-8.
pub open spec fn utf8_width(c: char) -> nat {
    if (c as u32) < 0x80 {
        1
    } else if (c as u32) < 0x800 {
        2
    } else if (c as u32) < 0x10000 {
        3
    } else {
        4
    }
}

/// Number of bytes that `s` takes in UTF-8.
pub open spec fn utf8_len(s: Seq<char>) -> nat
    decreases s.len(),
{
    if s.len() == 0 {
        0
    } else {
        utf8_len(s.drop_last()) + utf8_width(s.last())
    }
}

pub open spec fn ascii_only(s: Seq<char>) -> bool {
    forall|i: int| 0 <= i < s.len() ==> (#[trigger] s[i] as u32) < 0x80
}

/// Whether `s` has the shape of an e-mail address (HTML5 rules).
pub uninterp spec fn email_shaped(s: Seq<char>) -> bool;

pub open spec fn rejected(v: PasswordRejection) -> Result<(), PasswordRejection> {
    Err(v)
}

/// The outcomes that the entropy check can give for a password: a blank
/// one is an internal error, a non-ASCII one is refused as such, and an
/// ASCII one is accepted or found too simple. The estimator's score also
/// depends on the current year, so which of the last two is not fixed.
pub open spec fn entropy_allows(s: Seq<char>, e: Result<(), PasswordRejection>) -> bool {
    if s.len() == 0 {
        e == rejected(PasswordRejection::InternalError)
    } else if !ascii_only(s) {
        e == rejected(PasswordRejection::NonAsciiPassword)
    } else {
        e is Ok || e == rejected(PasswordRejection::TooSimple)
    }
}

/// The policy: length first, then the common-password corpus, then entropy.
pub open spec fn policy_verdict(
    long_enough: bool,
    common: bool,
    entropy: Result<(), PasswordRejection>,
) -> Result<(), PasswordRejection> {
    if !long_enough {
        Err(PasswordRejection::TooShort)
    } else if common {
        Err(PasswordRejection::TooCommon)
    } else {
        entropy
    }
}

/// The verdicts that the policy can give for a password, given whether the
/// corpus holds it: too short, then too common, then what the entropy check
/// allows.
pub open spec fn policy_allows(s: Seq<char>, common: bool, v: Result<(), PasswordRejection>) -> bool {
    if utf8_len(s) < 8 {
        v == rejected(PasswordRejection::TooShort)
    } else if common {
        v == rejected(PasswordRejection::TooCommon)
    } else {
        entropy_allows(s, v)
    }
}

pub open spec fn rejection_response(v: PasswordRejection) -> CustomResponses {
    match v {
        PasswordRejection::TooShort => CustomResponses::PasswordTooShort,
        PasswordRejection::TooCommon => CustomResponses::PasswordTooCommon,
        PasswordRejection::TooSimple => CustomResponses::PasswordTooSimple,
        _ => CustomResponses::InternalServerError,
    }
}

/// Relies on passablewords::check_length: accepted iff the password is at
/// least 8 bytes long.
#[verifier::external_body]
fn long_enough(password: &str) -> (r: bool)
    ensures
        r == (utf8_len(password@) >= 8),
{
    passablewords::check_length(password).is_ok()
}

/// Relies on passablewords::check_entropy: a blank password is an internal
/// error, a non-ASCII one is refused as such, and an ASCII one is accepted
/// or found too simple, by zxcvbn's score (which also reads the clock).
#[verifier::external_body]
fn entropy_check(password: &str) -> (r: Result<(), PasswordRejection>)
    ensures
        password@.len() == 0 ==> r == rejected(PasswordRejection::InternalError),
        password@.len() > 0 && !ascii_only(password@) ==> r == rejected(
            PasswordRejection::NonAsciiPassword,
        ),
        password@.len() > 0 && ascii_only(password@) ==> r is Ok || r == rejected(
            PasswordRejection::TooSimple,
        ),
{
    match passablewords::check_entropy(password) {
        Ok(()) => Ok(()),
        Err(passablewords::PasswordError::TooShort) => Err(PasswordRejection::TooShort),
        Err(passablewords::PasswordError::TooCommon) => Err(PasswordRejection::TooCommon),
        Err(passablewords::PasswordError::TooSimple) => Err(PasswordRejection::TooSimple),
        Err(passablewords::PasswordError::NonAsciiPassword) => Err(PasswordRejection::NonAsciiPassword),
        Err(passablewords::PasswordError::InternalError) => Err(PasswordRejection::InternalError),
    }
}

/// Relies on validator::validate_email: HTML5 e-mail shape; an empty string
/// or one without `@` never has it.
#[verifier::external_body]
fn email_check(email: &str) -> (r: bool)
    ensures
        r == email_shaped(email@),
        email@.len() == 0 ==> !r,
        !email@.contains('@') ==> !r,
{
    validator::validate_email(email)
}

/// Combines the three checks of the policy; the first failing one wins.
pub fn classify_password(
    long_enough: bool,
    common: bool,
    entropy: Result<(), PasswordRejection>,
) -> (r: Result<(), PasswordRejection>)
    ensures
        r == policy_verdict(long_enough, common, entropy),
{
    if !long_enough {
        Err(PasswordRejection::TooShort)
    } else if common {
        Err(PasswordRejection::TooCommon)
    } else {
        entropy
    }
}

/// Applies the strength policy to `password`. `common` says whether the
/// common-password corpus holds it.
pub fn check_password(password: &str, common: bool) -> (r: Result<(), PasswordRejection>)
    ensures
        policy_allows(password@, common, r),
{
    let length_ok = long_enough(password);
    let entropy = entropy_check(password);
    classify_password(length_ok, common, entropy)
}

/// Whether `email` has the shape of an e-mail address.
pub fn is_email(email: &str) -> (r: bool)
    ensures
        r == email_shaped(email@),
        email@.len() == 0 ==> !r,
{
    email_check(email)
}

/// The response that reports a policy rejection.
pub fn rejection_to_response(v: PasswordRejection) -> (r: CustomResponses)
    ensures
        r == rejection_response(v),
{
    match v {
        PasswordRejection::TooShort => CustomResponses::PasswordTooShort,
        PasswordRejection::TooCommon => CustomResponses::PasswordTooCommon,
        PasswordRejection::TooSimple => CustomResponses::PasswordTooSimple,
        _ => CustomResponses::InternalServerError,
    }
}

} // verus!

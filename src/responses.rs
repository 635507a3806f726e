//! The failures that the workflows report, with their HTTP status and message.

use vstd::prelude::*;

verus! {

/// Every failure that a workflow of this library can report to a caller.
#[derive(Clone, Copy, Debug, PartialEq, Eq, Structural)]
pub enum CustomResponses {
    PasswordsDontMatch,
    PasswordTooShort,
    PasswordTooCommon,
    PasswordTooSimple,
    InternalServerError,
    EmailAlreadyInUse,
    InvalidEmailOrPassword,
    InvalidApiKey,
    InvalidPermissions,
    InvalidRequest,
}

impl CustomResponses {
    /// The HTTP status that goes with the failure: only an internal error is a 500.
    pub open spec fn spec_status(self) -> u16 {
        match self {
            CustomResponses::InternalServerError => 500,
            _ => 400,
        }
    }

    /// The human-readable text carried in the `error` field of the response body.
    pub open spec fn spec_message(self) -> Seq<char> {
        match self {
            CustomResponses::PasswordsDontMatch => "Your passwords do not match"@,
            CustomResponses::PasswordTooShort => "Your password is too short"@,
            CustomResponses::PasswordTooCommon => "Your password is too common"@,
            CustomResponses::PasswordTooSimple => "Your password is too simple"@,
            CustomResponses::InternalServerError => "An internal error occurred"@,
            CustomResponses::EmailAlreadyInUse => "Email already in use"@,
            CustomResponses::InvalidEmailOrPassword => "Invalid email or password"@,
            CustomResponses::InvalidApiKey => "Invalid API key"@,
            CustomResponses::InvalidPermissions => "Invalid permissions"@,
            CustomResponses::InvalidRequest => "Invalid request"@,
        }
    }

    pub fn status_code(&self) -> (r: u16)
        ensures
            r == self.spec_status(),
    {
        match self {
            CustomResponses::InternalServerError => 500,
            _ => 400,
        }
    }

    pub fn message(&self) -> (r: &'static str)
        ensures
            r@ == self.spec_message(),
    {
        match self {
            CustomResponses::PasswordsDontMatch => "Your passwords do not match",
            CustomResponses::PasswordTooShort => "Your password is too short",
            CustomResponses::PasswordTooCommon => "Your password is too common",
            CustomResponses::PasswordTooSimple => "Your password is too simple",
            CustomResponses::InternalServerError => "An internal error occurred",
            CustomResponses::EmailAlreadyInUse => "Email already in use",
            CustomResponses::InvalidEmailOrPassword => "Invalid email or password",
            CustomResponses::InvalidApiKey => "Invalid API key",
            CustomResponses::InvalidPermissions => "Invalid permissions",
            CustomResponses::InvalidRequest => "Invalid request",
        }
    }
}

} // verus!

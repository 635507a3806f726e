//! Accounts, credentials and fair registration for an event-registration
//! service: password policy, credential hashing, an account repository with
//! unique emails and tokens, token-based authorization, and the assembly of a
//! fair with its days and events.

pub mod responses;
pub mod policy;
pub mod credentials;
pub mod accounts;
pub mod create;
pub mod get;
pub mod auth;
pub mod users;
pub mod fairs;
pub mod laws;

//! Storing new accounts and new fairs.

use vstd::prelude::*;

use crate::accounts::{has_key, search_key, AccountStore, User, UserSearchMode};
use crate::fairs::{assemble, assembled, fresh_children, ids_new, Fair, FairDay, FairEvent, FairStore};
use crate::responses::CustomResponses;

verus! {

/// Stores a new account, unless it shares an e-mail address, an
/// identifier or a token with a stored one; then the store is left as it
/// was and the failure is an internal error. On success the account's
/// token is returned.
pub fn user(db: &mut AccountStore, account: User) -> (r: Result<String, CustomResponses>)
    requires
        old(db).wf(),
    ensures
        final(db).wf(),
        r is Ok <==> !has_key(old(db)@, account.email@, UserSearchMode::Email) && !has_key(
            old(db)@,
            account.id@,
            UserSearchMode::Id,
        ) && !has_key(old(db)@, account.apikey@, UserSearchMode::ApiKey),
        r is Ok ==> final(db)@ == old(db)@.push(account) && r->Ok_0@ == account.apikey@,
        r is Err ==> r->Err_0 == CustomResponses::InternalServerError && final(db)@ == old(db)@,
{
    let taken = db.find(&account.email, UserSearchMode::Email).is_some() || db.find(
        &account.id,
        UserSearchMode::Id,
    ).is_some() || db.find(&account.apikey, UserSearchMode::ApiKey).is_some();
    if taken {
        return Err(CustomResponses::InternalServerError);
    }
    let apikey = account.apikey.clone();
    let ghost before = db@;
    db.users.push(account);
    proof {
        let s = db@;
        assert forall|i: int, j: int, mode: UserSearchMode|
            0 <= i < s.len() && 0 <= j < s.len() && i != j implies #[trigger] search_key(
                s[i],
                mode,
            ) != #[trigger] search_key(s[j], mode) by {
            if i < before.len() && j < before.len() {
                assert(s[i] == before[i] && s[j] == before[j]);
            } else if i == before.len() {
                assert(s[j] == before[j]);
                match mode {
                    UserSearchMode::Email => {},
                    UserSearchMode::Id => {},
                    UserSearchMode::ApiKey => {},
                }
            } else {
                assert(s[i] == before[i]);
                match mode {
                    UserSearchMode::Email => {},
                    UserSearchMode::Id => {},
                    UserSearchMode::ApiKey => {},
                }
            }
        }
    }
    Ok(apikey)
}

/// Stores a fair with its days and events, each under a freshly drawn
/// identifier and every event attached to the day it refers to; returns the
/// fair's identifier. Events without any day are refused; an identifier
/// that is already taken is an internal error.
pub fn fair(
    db: &mut FairStore,
    entry: Fair,
    fair_days: Vec<FairDay>,
    fair_events: Vec<FairEvent>,
) -> (r: Result<String, CustomResponses>)
    requires
        old(db).wf(),
    ensures
        final(db).wf(),
        fair_days@.len() == 0 && fair_events@.len() > 0 ==> r is Err && r->Err_0
            == CustomResponses::InvalidRequest,
        !(fair_days@.len() == 0 && fair_events@.len() > 0) && r is Err ==> r->Err_0
            == CustomResponses::InternalServerError,
        r is Err ==> final(db)@ == old(db)@,
        r is Ok ==> r->Ok_0@ == entry.id@ && final(db)@ == old(db)@.push(final(db)@.last())
            && assembled(final(db)@.last(), entry, fair_days@, fair_events@) && fresh_children(
            final(db)@.last(),
            fair_days@,
            fair_events@,
        ) && ids_new(old(db)@, final(db)@.last()),
{
    match assemble(entry, fair_days, fair_events) {
        Err(e) => Err(e),
        Ok(rec) => db.insert_record(rec),
    }
}

} // verus!

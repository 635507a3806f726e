//! Authorization by token, and the account lookups offered to callers.

use vstd::prelude::*;

use crate::accounts::{
    has_key, key_index, lemma_key_index, AccountStore, Role, User, UserSearchMode,
};
use crate::get;
use crate::responses::CustomResponses;

verus! {

pub struct GetUserByAPIKeyQuery {
    pub apikey: String,
}

pub open spec fn token_view(apikey: Option<&String>) -> Option<Seq<char>> {
    match apikey {
        Some(k) => Some(k@),
        None => None,
    }
}

/// Why a request that carries `apikey` is refused, against the accounts `s`:
/// no token, an empty or unknown one, or, where only organizers may act, an
/// account of another role. `None` when it is let through.
pub open spec fn authorization_error(
    s: Seq<User>,
    apikey: Option<Seq<char>>,
    organizer_only: bool,
) -> Option<CustomResponses> {
    if apikey is None || apikey->0.len() == 0 || !has_key(s, apikey->0, UserSearchMode::ApiKey) {
        Some(CustomResponses::InvalidApiKey)
    } else if organizer_only && s[key_index(
        s,
        apikey->0,
        UserSearchMode::ApiKey,
    )].role != Role::Organizer {
        Some(CustomResponses::InvalidPermissions)
    } else {
        None
    }
}

/// The decision on a request, given its token and the account that the
/// token was looked up to (`None` when the lookup found none).
pub fn grant(apikey: Option<&String>, found: Option<&User>, organizer_only: bool) -> (r: Result<
    (),
    CustomResponses,
>)
    ensures
        r == (if apikey is None || apikey->0@.len() == 0 || found is None {
            Err(CustomResponses::InvalidApiKey)
        } else if organizer_only && found->0.role != Role::Organizer {
            Err(CustomResponses::InvalidPermissions)
        } else {
            Ok(())
        }),
{
    let missing = match apikey {
        None => true,
        Some(k) => k.as_str().is_empty(),
    };
    if missing {
        return Err(CustomResponses::InvalidApiKey);
    }
    match found {
        None => Err(CustomResponses::InvalidApiKey),
        Some(u) => {
            if organizer_only && u.role != Role::Organizer {
                Err(CustomResponses::InvalidPermissions)
            } else {
                Ok(())
            }
        },
    }
}

/// Resolves a token to its account, and checks its role where only
/// organizers may act.
pub fn authorize<'a>(
    db: &'a AccountStore,
    apikey: Option<&String>,
    organizer_only: bool,
) -> (r: Result<&'a User, CustomResponses>)
    requires
        db.wf(),
    ensures
        match authorization_error(db@, token_view(apikey), organizer_only) {
            Some(e) => r == Err::<&User, CustomResponses>(e),
            None => r is Ok && *r->Ok_0 == db@[key_index(
                db@,
                token_view(apikey)->0,
                UserSearchMode::ApiKey,
            )],
        },
{
    let found = match apikey {
        Some(k) => get::user(db, k, UserSearchMode::ApiKey),
        None => None,
    };
    proof {
        if found is Some {
            let i = choose|i: int| 0 <= i < db@.len() && db@[i] == *found->0;
            lemma_key_index(db@, token_view(apikey)->0, UserSearchMode::ApiKey, i);
        }
    }
    match grant(apikey, found, organizer_only) {
        Err(e) => Err(e),
        Ok(()) => match found {
            Some(u) => Ok(u),
            None => Err(CustomResponses::InvalidApiKey),
        },
    }
}

/// The account that a token belongs to.
pub fn get_by_apikey<'a>(db: &'a AccountStore, query: &GetUserByAPIKeyQuery) -> (r: Result<
    &'a User,
    CustomResponses,
>)
    requires
        db.wf(),
    ensures
        (query.apikey@.len() == 0 || !has_key(db@, query.apikey@, UserSearchMode::ApiKey)) ==> r
            == Err::<&User, CustomResponses>(CustomResponses::InvalidApiKey),
        r is Ok ==> r->Ok_0.apikey@ == query.apikey@ && db@.contains(*r->Ok_0),
        query.apikey@.len() > 0 && has_key(db@, query.apikey@, UserSearchMode::ApiKey) ==> r is Ok,
{
    authorize(db, Some(&query.apikey), false)
}

/// The account with the given identifier.
pub fn get_by_id<'a>(db: &'a AccountStore, user_id: &String) -> (r: Result<&'a User, CustomResponses>)
    ensures
        r is Ok <==> has_key(db@, user_id@, UserSearchMode::Id),
        r is Ok ==> r->Ok_0.id@ == user_id@ && db@.contains(*r->Ok_0),
        r is Err ==> r->Err_0 == CustomResponses::InvalidRequest,
{
    match get::user(db, user_id, UserSearchMode::Id) {
        Some(u) => Ok(u),
        None => Err(CustomResponses::InvalidRequest),
    }
}

/// The account with the given e-mail address.
pub fn get_by_email<'a>(db: &'a AccountStore, email: &String) -> (r: Result<&'a User, CustomResponses>)
    ensures
        r is Ok <==> has_key(db@, email@, UserSearchMode::Email),
        r is Ok ==> r->Ok_0.email@ == email@ && db@.contains(*r->Ok_0),
        r is Err ==> r->Err_0 == CustomResponses::InvalidRequest,
{
    match get::user(db, email, UserSearchMode::Email) {
        Some(u) => Ok(u),
        None => Err(CustomResponses::InvalidRequest),
    }
}

} // verus!

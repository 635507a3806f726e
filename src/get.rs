//! Looking accounts up.

use vstd::prelude::*;

use crate::accounts::{has_key, search_key, AccountStore, User, UserSearchMode};

verus! {

/// The account whose field named by `mode` is `src`, if there is one.
pub fn user<'a>(db: &'a AccountStore, src: &String, mode: UserSearchMode) -> (r: Option<&'a User>)
    ensures
        r is Some <==> has_key(db@, src@, mode),
        r is Some ==> search_key(*r->0, mode) == src@ && db@.contains(*r->0),
{
    match db.find(src, mode) {
        Some(i) => Some(&db.users[i]),
        None => None,
    }
}

} // verus!

//! Properties that hold across the workflows.

use vstd::prelude::*;

use crate::accounts::{
    accounts_unique, has_key, lemma_key_index, search_key, User, UserSearchMode,
};
use crate::auth::{
    account_from, gate_from, login_fields_valid, login_outcome, registered,
    registered_after_gate, registration_gate, LoginRequest, RegisterQuery, RegisterRequest,
};
use crate::credentials::digest_shaped;
use crate::fairs::{
    ids_new, lemma_store_contains, record_ids, store_ids, assembled, day_slot, lemma_slot_in_range, record_consistent, refers_to_day, Fair, FairDay,
    FairEvent, FairRecord,
};
use crate::policy::{email_shaped, policy_allows, utf8_len};
use crate::responses::CustomResponses;
use crate::users::authorization_error;

verus! {

/// A successful registration passed every check and appended one account,
/// described by the request, whose token was returned.
pub proof fn lemma_registered_ok(
    before: Seq<User>,
    after: Seq<User>,
    req: RegisterRequest,
    query: RegisterQuery,
    common: bool,
    token: String,
)
    requires
        registered(before, after, req, query, common, Ok(token)),
    ensures
        registration_gate(req, common, Ok(())),
        !has_key(before, req.email@, UserSearchMode::Email),
        after == before.push(after.last()),
        account_from(after.last(), req, query),
        after.last().apikey@ == token@,
        token@.len() > 0,
{
    let g = choose|g: Result<(), CustomResponses>|
        #[trigger] registration_gate(req, common, g) && registered_after_gate(
            before,
            after,
            req,
            query,
            g,
            Ok(token),
        );
    assert(g is Ok);
}

/// A registration that passed its checks had matching passwords, a long
/// enough one, and a well-formed e-mail address.
pub proof fn lemma_gate_passed(req: RegisterRequest, common: bool)
    requires
        registration_gate(req, common, Ok(())),
    ensures
        req.password@ == req.confirm_password@,
        utf8_len(req.password@) >= 8,
        email_shaped(req.email@),
{
    let v = choose|v: Result<(), crate::policy::PasswordRejection>|
        #[trigger] policy_allows(req.password@, common, v) && Ok::<(), CustomResponses>(())
            == gate_from(req, v, email_shaped(req.email@));
    assert(v is Ok);
}

/// After a successful registration, exactly one account holds the returned
/// token: the one just stored.
pub proof fn token_identifies_one_account(
    before: Seq<User>,
    after: Seq<User>,
    req: RegisterRequest,
    query: RegisterQuery,
    common: bool,
    token: String,
)
    requires
        accounts_unique(after),
        registered(before, after, req, query, common, Ok(token)),
    ensures
        has_key(after, token@, UserSearchMode::ApiKey),
        forall|i: int|
            0 <= i < after.len() && #[trigger] after[i].apikey@ == token@ ==> i == after.len() - 1,
{
    lemma_registered_ok(before, after, req, query, common, token);
    let n = after.len() - 1;
    assert(search_key(after[n], UserSearchMode::ApiKey) == token@);
    assert forall|i: int| 0 <= i < after.len() && #[trigger] after[i].apikey@ == token@ implies i
        == after.len() - 1 by {
        if i != n {
            assert(search_key(after[i], UserSearchMode::ApiKey) != search_key(
                after[n],
                UserSearchMode::ApiKey,
            ));
        }
    }
}

/// Two successful registrations, one after the other, return different
/// tokens and were made for different e-mail addresses.
pub proof fn registrations_never_share_token_or_email(
    s0: Seq<User>,
    s1: Seq<User>,
    s2: Seq<User>,
    first: RegisterRequest,
    first_query: RegisterQuery,
    first_common: bool,
    second: RegisterRequest,
    second_query: RegisterQuery,
    second_common: bool,
    t1: String,
    t2: String,
)
    requires
        accounts_unique(s2),
        registered(s0, s1, first, first_query, first_common, Ok(t1)),
        registered(s1, s2, second, second_query, second_common, Ok(t2)),
    ensures
        t1@ != t2@,
        first.email@ != second.email@,
{
    lemma_registered_ok(s0, s1, first, first_query, first_common, t1);
    lemma_registered_ok(s1, s2, second, second_query, second_common, t2);
    let a = s1.len() - 1;
    let b = s2.len() - 1;
    assert(s2[a] == s1[a]);
    assert(search_key(s2[a], UserSearchMode::ApiKey) != search_key(s2[b], UserSearchMode::ApiKey));
    assert(search_key(s2[a], UserSearchMode::Email) != search_key(s2[b], UserSearchMode::Email));
}

/// Once an address is registered, another registration with it stores no
/// account and fails: as a duplicate, or with an error that the checks
/// preceding the lookup can give for it.
pub proof fn second_registration_is_duplicate(
    s0: Seq<User>,
    s1: Seq<User>,
    s2: Seq<User>,
    first: RegisterRequest,
    first_query: RegisterQuery,
    first_common: bool,
    second: RegisterRequest,
    second_query: RegisterQuery,
    second_common: bool,
    t: String,
    r: Result<String, CustomResponses>,
)
    requires
        registered(s0, s1, first, first_query, first_common, Ok(t)),
        registered(s1, s2, second, second_query, second_common, r),
        second.email@ == first.email@,
    ensures
        s2 == s1,
        r is Err,
        r->Err_0 == CustomResponses::EmailAlreadyInUse || registration_gate(
            second,
            second_common,
            Err(r->Err_0),
        ),
{
    lemma_registered_ok(s0, s1, first, first_query, first_common, t);
    let n = s1.len() - 1;
    assert(search_key(s1[n], UserSearchMode::Email) == second.email@);
    assert(has_key(s1, second.email@, UserSearchMode::Email));
    let g = choose|g: Result<(), CustomResponses>|
        #[trigger] registration_gate(second, second_common, g) && registered_after_gate(
            s1,
            s2,
            second,
            second_query,
            g,
            r,
        );
}

/// A refused registration stores nothing, so a later login with that
/// (well-formed) address finds no account.
pub proof fn refused_registration_stores_nothing(
    before: Seq<User>,
    after: Seq<User>,
    req: RegisterRequest,
    query: RegisterQuery,
    common: bool,
    r: Result<String, CustomResponses>,
    login: LoginRequest,
)
    requires
        registered(before, after, req, query, common, r),
        r is Err,
        !has_key(before, req.email@, UserSearchMode::Email),
        login.email@ == req.email@,
        login_fields_valid(login),
    ensures
        after == before,
        login_outcome(after, login) == Err::<crate::auth::LoginResponse, CustomResponses>(
            CustomResponses::InvalidEmailOrPassword,
        ),
{
    let g = choose|g: Result<(), CustomResponses>|
        #[trigger] registration_gate(req, common, g) && registered_after_gate(
            before,
            after,
            req,
            query,
            g,
            r,
        );
}

/// The token of a freshly registered account passes the organizer check
/// exactly when the registration asked for the organizer role; otherwise
/// it is refused for its permissions.
pub proof fn organizer_flag_decides_fair_registration(
    before: Seq<User>,
    after: Seq<User>,
    req: RegisterRequest,
    query: RegisterQuery,
    common: bool,
    token: String,
)
    requires
        accounts_unique(after),
        registered(before, after, req, query, common, Ok(token)),
    ensures
        authorization_error(after, Some(token@), true) == (if query.fair_organizer == Some(true) {
            None::<CustomResponses>
        } else {
            Some(CustomResponses::InvalidPermissions)
        }),
{
    lemma_registered_ok(before, after, req, query, common, token);
    let n = after.len() - 1;
    assert(search_key(after[n], UserSearchMode::ApiKey) == token@);
    lemma_key_index(after, token@, UserSearchMode::ApiKey, n);
}

/// A request without a token, or with an empty or unknown one, is refused
/// as an invalid API key whatever it carries.
pub proof fn unknown_token_is_refused(accounts: Seq<User>, apikey: Option<Seq<char>>)
    requires
        apikey is None || apikey->0.len() == 0 || !has_key(
            accounts,
            apikey->0,
            UserSearchMode::ApiKey,
        ),
    ensures
        authorization_error(accounts, apikey, true) == Some(CustomResponses::InvalidApiKey),
        authorization_error(accounts, apikey, false) == Some(CustomResponses::InvalidApiKey),
{
}

/// In a fair assembled from days and events, every day belongs to the fair
/// and every event refers to one of those days (events come with at least
/// one day).
pub proof fn events_refer_to_own_days(
    rec: FairRecord,
    fair: Fair,
    days: Seq<FairDay>,
    events: Seq<FairEvent>,
)
    requires
        assembled(rec, fair, days, events),
        events.len() > 0 ==> days.len() > 0,
    ensures
        record_consistent(rec),
        forall|i: int| 0 <= i < rec.days@.len() ==> (#[trigger] rec.days@[i]).fair_id@ == rec.fair.id@,
{
    assert forall|j: int| 0 <= j < rec.events@.len() implies #[trigger] refers_to_day(rec, j) by {
        let s = day_slot(days, events[j].fair_day_id@);
        lemma_slot_in_range(days, events[j].fair_day_id@, 0);
        assert(rec.events@[j].fair_day_id@ == rec.days@[s].id@);
    }
}

proof fn lemma_positive_utf8_len(s: Seq<char>)
    requires
        utf8_len(s) > 0,
    ensures
        s.len() > 0,
{
}

/// Logging in with the address and password of a successful registration
/// returns the token that the registration returned.
pub proof fn login_after_registration(
    before: Seq<User>,
    after: Seq<User>,
    req: RegisterRequest,
    query: RegisterQuery,
    common: bool,
    token: String,
)
    requires
        accounts_unique(after),
        registered(before, after, req, query, common, Ok(token)),
    ensures
        login_outcome(after, LoginRequest { email: req.email, password: req.password }) is Ok,
        login_outcome(
            after,
            LoginRequest { email: req.email, password: req.password },
        )->Ok_0.apikey@ == token@,
{
    lemma_registered_ok(before, after, req, query, common, token);
    lemma_gate_passed(req, common);
    let n = after.len() - 1;
    lemma_positive_utf8_len(req.password@);
    assert(search_key(after[n], UserSearchMode::Email) == req.email@);
    lemma_key_index(after, req.email@, UserSearchMode::Email, n);
}

/// The digest stored for a registered account is not its password, unless
/// the password itself has the shape of a digest.
pub proof fn stored_digest_is_not_the_password(
    u: User,
    req: RegisterRequest,
    query: RegisterQuery,
)
    requires
        account_from(u, req, query),
        !digest_shaped(req.password@),
    ensures
        u.password@ != req.password@,
{
}

/// In a record whose identifiers are all distinct, no two days share an
/// identifier, so the day that an event refers to is the only one with
/// that identifier.
pub proof fn referred_day_is_unique(rec: FairRecord)
    requires
        record_ids(rec).no_duplicates(),
    ensures
        forall|a: int, b: int|
            0 <= a < rec.days@.len() && 0 <= b < rec.days@.len() && a != b ==> (
            #[trigger] rec.days@[a]).id@ != (#[trigger] rec.days@[b]).id@,
        forall|j: int, a: int, b: int|
            0 <= j < rec.events@.len() && 0 <= a < rec.days@.len() && 0 <= b < rec.days@.len()
                && (#[trigger] rec.events@[j]).fair_day_id@ == (#[trigger] rec.days@[a]).id@
                && rec.events@[j].fair_day_id@ == (#[trigger] rec.days@[b]).id@ ==> a == b,
{
    let ids = record_ids(rec);
    assert forall|a: int, b: int|
        0 <= a < rec.days@.len() && 0 <= b < rec.days@.len() && a != b implies (
        #[trigger] rec.days@[a]).id@ != (#[trigger] rec.days@[b]).id@ by {
        assert(ids[1 + a] == rec.days@[a].id@);
        assert(ids[1 + b] == rec.days@[b].id@);
    }
}

/// A record stored with identifiers that are new to the store shares no
/// identifier with any record stored before it: in particular, its fair's
/// identifier differs from every earlier fair's.
pub proof fn new_record_shares_no_identifier(before: Seq<FairRecord>, rec: FairRecord)
    requires
        ids_new(before, rec),
    ensures
        forall|k: int, t: int|
            0 <= k < before.len() && 0 <= t < record_ids(rec).len() ==> !(#[trigger] record_ids(
                before[k],
            )).contains(#[trigger] record_ids(rec)[t]),
        forall|k: int| 0 <= k < before.len() ==> (#[trigger] before[k]).fair.id@ != rec.fair.id@,
{
    assert forall|k: int, t: int|
        0 <= k < before.len() && 0 <= t < record_ids(rec).len() implies !(#[trigger] record_ids(
            before[k],
        )).contains(#[trigger] record_ids(rec)[t]) by {
        lemma_store_contains(before, record_ids(rec)[t]);
        assert(!store_ids(before).contains(record_ids(rec)[t]));
    }
    assert forall|k: int| 0 <= k < before.len() implies (#[trigger] before[k]).fair.id@
        != rec.fair.id@ by {
        assert(record_ids(before[k])[0] == before[k].fair.id@);
        assert(record_ids(rec)[0] == rec.fair.id@);
        lemma_store_contains(before, rec.fair.id@);
        assert(record_ids(before[k]).contains(before[k].fair.id@));
    }
}

} // verus!

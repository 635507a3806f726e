//! Registration and login.

use vstd::prelude::*;

use crate::accounts::{has_key, key_index, AccountStore, Role, User, UserSearchMode};
use crate::create;
use crate::credentials::{
    digest_check, digest_shaped, hash_password, new_object_id, new_token, now_millis, verify_password,
};
use crate::policy::{
    check_password, email_shaped, is_email, policy_allows, rejection_response,
    rejection_to_response, PasswordRejection,
};
use crate::responses::CustomResponses;

verus! {

/// The fields of a registration.
pub struct RegisterRequest {
    pub email: String,
    pub first_name: String,
    pub last_name: String,
    pub phone_number: String,
    pub password: String,
    pub confirm_password: String,
}

/// The query of a registration: whether the account is to be an organizer.
pub struct RegisterQuery {
    pub fair_organizer: Option<bool>,
}

pub struct LoginRequest {
    pub email: String,
    pub password: String,
}

/// What a successful login hands back.
pub struct LoginResponse {
    pub apikey: String,
    pub role: Role,
    pub id: String,
}

pub open spec fn fields_present(req: RegisterRequest) -> bool {
    req.first_name@.len() > 0 && req.last_name@.len() > 0 && req.phone_number@.len() > 0
}

/// The checks made before any lookup, in order: confirmation, strength
/// policy, then the shape of the fields.
pub open spec fn gate_from(
    req: RegisterRequest,
    policy: Result<(), PasswordRejection>,
    email_ok: bool,
) -> Result<(), CustomResponses> {
    if req.password@ != req.confirm_password@ {
        Err(CustomResponses::PasswordsDontMatch)
    } else if policy is Err {
        Err(rejection_response(policy->Err_0))
    } else if !email_ok || !fields_present(req) {
        Err(CustomResponses::InvalidRequest)
    } else {
        Ok(())
    }
}

/// Whether `g` is an outcome that the checks preceding any lookup can give
/// for `req`: the policy's verdict on the password is one that the policy
/// allows, and the e-mail shape is the one the validator gives.
pub open spec fn registration_gate(
    req: RegisterRequest,
    common: bool,
    g: Result<(), CustomResponses>,
) -> bool {
    exists|v: Result<(), PasswordRejection>|
        #[trigger] policy_allows(req.password@, common, v) && g == gate_from(
            req,
            v,
            email_shaped(req.email@),
        )
}

/// Whether a registration whose checks gave `g` gets past every check that
/// precedes storing the account, against the accounts `s`.
pub open spec fn registration_verdict(
    s: Seq<User>,
    req: RegisterRequest,
    g: Result<(), CustomResponses>,
) -> Result<(), CustomResponses> {
    match g {
        Err(e) => Err(e),
        Ok(_) => if has_key(s, req.email@, UserSearchMode::Email) {
            Err(CustomResponses::EmailAlreadyInUse)
        } else {
            Ok(())
        },
    }
}

/// `u` is the account that `req` and `query` describe, with its password
/// stored as a digest that verifies against the requested password.
pub open spec fn account_from(u: User, req: RegisterRequest, query: RegisterQuery) -> bool {
    &&& u.email@ == req.email@
    &&& u.first_name@ == req.first_name@
    &&& u.last_name@ == req.last_name@
    &&& u.phone_number@ == req.phone_number@
    &&& digest_check(req.password@, u.password@) == Some(true)
    &&& digest_shaped(u.password@)
    &&& u.role == Role::spec_from_flag(query.fair_organizer)
    &&& u.created_at == u.updated_at
}

/// What a registration whose checks gave `g` did, from the accounts
/// `before` to the accounts `after`, returning `r`: a refused one changes
/// nothing; an accepted one appends exactly one account, whose token is
/// returned, or fails as an internal error and changes nothing.
pub open spec fn registered_after_gate(
    before: Seq<User>,
    after: Seq<User>,
    req: RegisterRequest,
    query: RegisterQuery,
    g: Result<(), CustomResponses>,
    r: Result<String, CustomResponses>,
) -> bool {
    match registration_verdict(before, req, g) {
        Err(e) => r == Err::<String, CustomResponses>(e) && after == before,
        Ok(_) => match r {
            Ok(token) => {
                &&& after == before.push(after.last())
                &&& account_from(after.last(), req, query)
                &&& after.last().apikey@ == token@
                &&& token@.len() > 0
            },
            Err(e) => e == CustomResponses::InternalServerError && after == before,
        },
    }
}

/// What a registration did: for some outcome of its checks that the policy
/// allows, what `registered_after_gate` describes.
pub open spec fn registered(
    before: Seq<User>,
    after: Seq<User>,
    req: RegisterRequest,
    query: RegisterQuery,
    common: bool,
    r: Result<String, CustomResponses>,
) -> bool {
    exists|g: Result<(), CustomResponses>|
        #[trigger] registration_gate(req, common, g) && registered_after_gate(
            before,
            after,
            req,
            query,
            g,
            r,
        )
}

pub proof fn lemma_registered(
    before: Seq<User>,
    after: Seq<User>,
    req: RegisterRequest,
    query: RegisterQuery,
    common: bool,
    g: Result<(), CustomResponses>,
    r: Result<String, CustomResponses>,
)
    requires
        registration_gate(req, common, g),
        registered_after_gate(before, after, req, query, g, r),
    ensures
        registered(before, after, req, query, common, r),
{
}

/// The registration checks, given the policy's verdict on the password and
/// whether the e-mail address is well formed.
pub fn registration_gate_with(
    req: &RegisterRequest,
    policy: Result<(), PasswordRejection>,
    email_ok: bool,
) -> (r: Result<(), CustomResponses>)
    ensures
        r == gate_from(*req, policy, email_ok),
{
    if !req.password.eq(&req.confirm_password) {
        return Err(CustomResponses::PasswordsDontMatch);
    }
    if let Err(v) = policy {
        return Err(rejection_to_response(v));
    }
    if !email_ok || req.first_name.as_str().is_empty() || req.last_name.as_str().is_empty()
        || req.phone_number.as_str().is_empty() {
        return Err(CustomResponses::InvalidRequest);
    }
    Ok(())
}

/// The checks that a registration passes before any lookup. `common` says
/// whether the common-password corpus holds the password.
pub fn check_registration(req: &RegisterRequest, common: bool) -> (r: Result<(), CustomResponses>)
    ensures
        registration_gate(*req, common, r),
{
    let policy = check_password(req.password.as_str(), common);
    let email_ok = is_email(req.email.as_str());
    registration_gate_with(req, policy, email_ok)
}

/// The decision after looking the e-mail address up: `Ok(found)`, or `Err`
/// when the lookup itself failed.
pub fn duplicate_check(lookup: Result<bool, ()>) -> (r: Result<(), CustomResponses>)
    ensures
        r == (match lookup {
            Ok(true) => Err(CustomResponses::EmailAlreadyInUse),
            Ok(false) => Ok(()),
            Err(_) => Err(CustomResponses::InternalServerError),
        }),
{
    match lookup {
        Ok(true) => Err(CustomResponses::EmailAlreadyInUse),
        Ok(false) => Ok(()),
        Err(_) => Err(CustomResponses::InternalServerError),
    }
}

/// Builds the account that a registration describes, with the given
/// identifier, token and time; the password is hashed here.
pub fn new_account(
    req: RegisterRequest,
    query: &RegisterQuery,
    id: String,
    apikey: String,
    now: i64,
) -> (r: Result<User, CustomResponses>)
    ensures
        r is Ok ==> account_from(r->Ok_0, req, *query) && r->Ok_0.id@ == id@ && r->Ok_0.apikey@
            == apikey@ && r->Ok_0.created_at == now,
        r is Err ==> r->Err_0 == CustomResponses::InternalServerError,
{
    let digest = match hash_password(req.password.as_str()) {
        Ok(d) => d,
        Err(e) => return Err(e),
    };
    Ok(
        User {
            id,
            apikey,
            email: req.email,
            first_name: req.first_name,
            last_name: req.last_name,
            phone_number: req.phone_number,
            password: digest,
            role: Role::from_flag(query.fair_organizer),
            created_at: now,
            updated_at: now,
        },
    )
}

/// Builds the account that a registration describes under a fresh
/// identifier and a fresh random token, stamped with the current time.
pub fn draw_account(req: RegisterRequest, query: &RegisterQuery) -> (r: Result<User, CustomResponses>)
    ensures
        r is Ok ==> account_from(r->Ok_0, req, *query) && r->Ok_0.apikey@.len() == 36
            && r->Ok_0.id@.len() == 24,
        r is Err ==> r->Err_0 == CustomResponses::InternalServerError,
{
    let id = new_object_id();
    let apikey = new_token();
    let now = now_millis();
    new_account(req, query, id, apikey, now)
}

/// Registers an account with the given identifier, token and time. An
/// empty token could never authorize anything: it is an internal error.
pub fn register_with(
    db: &mut AccountStore,
    request: RegisterRequest,
    query: RegisterQuery,
    common: bool,
    id: String,
    apikey: String,
    now: i64,
) -> (r: Result<String, CustomResponses>)
    requires
        old(db).wf(),
    ensures
        final(db).wf(),
        registered(old(db)@, final(db)@, request, query, common, r),
        r is Ok ==> r->Ok_0@ == apikey@ && final(db)@.last().id@ == id@,
        has_key(old(db)@, id@, UserSearchMode::Id) || has_key(
            old(db)@,
            apikey@,
            UserSearchMode::ApiKey,
        ) || apikey@.len() == 0 ==> r is Err,
{
    let gate = check_registration(&request, common);
    let ghost g = gate;
    let ghost req = request;
    let r = match gate {
        Err(e) => Err(e),
        Ok(()) => {
            let found = db.find(&request.email, UserSearchMode::Email).is_some();
            match duplicate_check(Ok(found)) {
                Err(e) => Err(e),
                Ok(()) => {
                    if apikey.as_str().is_empty() {
                        Err(CustomResponses::InternalServerError)
                    } else {
                        match new_account(request, &query, id, apikey, now) {
                            Err(e) => Err(e),
                            Ok(account) => {
                                let ghost stored = account;
                                let r = create::user(db, account);
                                proof {
                                    if r is Ok {
                                        assert(db@.last() == stored);
                                    }
                                }
                                r
                            },
                        }
                    }
                },
            }
        },
    };
    proof {
        lemma_registered(old(db)@, db@, req, query, common, g, r);
    }
    r
}

/// Registers an account: a fresh identifier and a fresh random token are
/// drawn, and the token is returned. `common` says whether the
/// common-password corpus holds the password.
pub fn register(
    db: &mut AccountStore,
    request: RegisterRequest,
    query: RegisterQuery,
    common: bool,
) -> (r: Result<String, CustomResponses>)
    requires
        old(db).wf(),
    ensures
        final(db).wf(),
        registered(old(db)@, final(db)@, request, query, common, r),
        r is Ok ==> r->Ok_0@.len() == 36 && final(db)@.last().id@.len() == 24,
{
    let id = new_object_id();
    let apikey = new_token();
    let now = now_millis();
    register_with(db, request, query, common, id, apikey, now)
}

/// What a login returns for the account `u`, given what the verification
/// of the password against its digest said.
pub open spec fn login_result(u: User, verified: Option<bool>) -> Result<
    LoginResponse,
    CustomResponses,
> {
    match verified {
        Some(true) => Ok(LoginResponse { apikey: u.apikey, role: u.role, id: u.id }),
        Some(false) => Err(CustomResponses::InvalidEmailOrPassword),
        None => Err(CustomResponses::InternalServerError),
    }
}

pub open spec fn login_fields_valid(req: LoginRequest) -> bool {
    email_shaped(req.email@) && req.password@.len() > 0
}

/// A login against the accounts `s`: an unknown address and a wrong
/// password give the same failure.
pub open spec fn login_outcome(s: Seq<User>, req: LoginRequest) -> Result<
    LoginResponse,
    CustomResponses,
> {
    if !login_fields_valid(req) {
        Err(CustomResponses::InvalidRequest)
    } else if !has_key(s, req.email@, UserSearchMode::Email) {
        Err(CustomResponses::InvalidEmailOrPassword)
    } else {
        let u = s[key_index(s, req.email@, UserSearchMode::Email)];
        login_result(u, digest_check(req.password@, u.password@))
    }
}

/// The shape checks of a login.
pub fn check_login(req: &LoginRequest) -> (r: Result<(), CustomResponses>)
    ensures
        r is Ok <==> login_fields_valid(*req),
        r is Err ==> r->Err_0 == CustomResponses::InvalidRequest,
{
    if !is_email(req.email.as_str()) || req.password.as_str().is_empty() {
        return Err(CustomResponses::InvalidRequest);
    }
    Ok(())
}

/// The login decision for the account found by e-mail address, given what
/// the verification of the password said.
pub fn login_decision(user: &User, verified: Option<bool>) -> (r: Result<
    LoginResponse,
    CustomResponses,
>)
    ensures
        r == login_result(*user, verified),
{
    match verified {
        Some(true) => Ok(
            LoginResponse { apikey: user.apikey.clone(), role: user.role, id: user.id.clone() },
        ),
        Some(false) => Err(CustomResponses::InvalidEmailOrPassword),
        None => Err(CustomResponses::InternalServerError),
    }
}

/// Checks the password against the digest of the account found by e-mail
/// address, or reports that none was found.
pub fn authenticate(request: &LoginRequest, found: Option<&User>) -> (r: Result<
    LoginResponse,
    CustomResponses,
>)
    ensures
        found is None ==> r == Err::<LoginResponse, CustomResponses>(
            CustomResponses::InvalidEmailOrPassword,
        ),
        found is Some ==> r == login_result(
            *found->0,
            digest_check(request.password@, found->0.password@),
        ),
{
    match found {
        None => Err(CustomResponses::InvalidEmailOrPassword),
        Some(user) => {
            let verified = match verify_password(request.password.as_str(), user.password.as_str()) {
                Ok(b) => Some(b),
                Err(_) => None,
            };
            login_decision(user, verified)
        },
    }
}

/// Logs in: returns the account's token, role and identifier.
pub fn login(db: &AccountStore, request: &LoginRequest) -> (r: Result<
    LoginResponse,
    CustomResponses,
>)
    requires
        db.wf(),
    ensures
        r == login_outcome(db@, *request),
{
    if let Err(e) = check_login(request) {
        return Err(e);
    }
    let found = crate::get::user(db, &request.email, UserSearchMode::Email);
    proof {
        if found is Some {
            let i = choose|i: int| 0 <= i < db@.len() && db@[i] == *found->0;
            crate::accounts::lemma_key_index(db@, request.email@, UserSearchMode::Email, i);
        }
    }
    authenticate(request, found)
}

} // verus!

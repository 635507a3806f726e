use fair_registry::accounts::{AccountStore, Role, UserSearchMode};
use fair_registry::auth::{
    check_login, check_registration, duplicate_check, login, login_decision, new_account,
    register, register_with, registration_gate_with, LoginRequest, RegisterQuery, RegisterRequest,
};
use fair_registry::credentials::{hash_password, verify_password};
use fair_registry::policy::PasswordRejection;
use fair_registry::responses::CustomResponses;
use fair_registry::{create, get};

fn request(email: &str, password: &str, confirm: &str) -> RegisterRequest {
    RegisterRequest {
        email: email.to_string(),
        first_name: "Ada".to_string(),
        last_name: "Lovelace".to_string(),
        phone_number: "0123456789".to_string(),
        password: password.to_string(),
        confirm_password: confirm.to_string(),
    }
}

fn standard() -> RegisterQuery {
    RegisterQuery { fair_organizer: None }
}

fn login_request(email: &str, password: &str) -> LoginRequest {
    LoginRequest { email: email.to_string(), password: password.to_string() }
}

const GOOD: &str = "Str0ngP@ss!";
const LONG: &str = "correct horse battery staple 42";

#[test]
fn register_then_login_returns_same_token() {
    let mut db = AccountStore::new();
    let token = register(&mut db, request("a@x.com", GOOD, GOOD), standard(), false).unwrap();
    assert_eq!(token.len(), 36);
    let ok = login(&db, &login_request("a@x.com", GOOD)).unwrap();
    assert_eq!(ok.apikey, token);
    assert_eq!(ok.role, Role::Standard);
    assert_eq!(ok.id.len(), 24);
    let wrong = login(&db, &login_request("a@x.com", "Wr0ngP@ss!"));
    assert_eq!(wrong.err(), Some(CustomResponses::InvalidEmailOrPassword));
}

#[test]
fn short_password_is_refused_and_nothing_stored() {
    let mut db = AccountStore::new();
    let r = register(&mut db, request("b@x.com", "short", "short"), standard(), false);
    assert_eq!(r, Err(CustomResponses::PasswordTooShort));
    assert_eq!(db.len(), 0);
    let l = login(&db, &login_request("b@x.com", "short"));
    assert_eq!(l.err(), Some(CustomResponses::InvalidEmailOrPassword));
}

#[test]
fn second_registration_with_same_email_is_refused() {
    let mut db = AccountStore::new();
    let first = register(&mut db, request("c@x.com", LONG, LONG), standard(), false);
    assert!(first.is_ok());
    let second = register(&mut db, request("c@x.com", LONG, LONG), standard(), false);
    assert_eq!(second, Err(CustomResponses::EmailAlreadyInUse));
    assert_eq!(db.len(), 1);
}

#[test]
fn mismatched_confirmation_is_refused_first() {
    let mut db = AccountStore::new();
    let r = register(&mut db, request("not an email", "short", "other"), standard(), false);
    assert_eq!(r, Err(CustomResponses::PasswordsDontMatch));
    assert_eq!(db.len(), 0);
}

#[test]
fn common_password_is_refused() {
    let mut db = AccountStore::new();
    let r = register(&mut db, request("d@x.com", LONG, LONG), standard(), true);
    assert_eq!(r, Err(CustomResponses::PasswordTooCommon));
    assert_eq!(db.len(), 0);
}

#[test]
fn simple_password_is_refused() {
    let mut db = AccountStore::new();
    let r = register(&mut db, request("e@x.com", "aaaaaaaaaa", "aaaaaaaaaa"), standard(), false);
    assert_eq!(r, Err(CustomResponses::PasswordTooSimple));
}

#[test]
fn non_ascii_password_is_an_internal_error() {
    let pw = "päss wörd mit ümlauten 42";
    let r = check_registration(&request("f@x.com", pw, pw), false);
    assert_eq!(r, Err(CustomResponses::InternalServerError));
}

#[test]
fn malformed_email_is_a_validation_error() {
    let r = check_registration(&request("not-an-email", LONG, LONG), false);
    assert_eq!(r, Err(CustomResponses::InvalidRequest));
}

#[test]
fn empty_name_is_a_validation_error() {
    let mut req = request("g@x.com", LONG, LONG);
    req.first_name = String::new();
    assert_eq!(check_registration(&req, false), Err(CustomResponses::InvalidRequest));
}

#[test]
fn gate_order_with_given_verdicts() {
    let req = request("h@x.com", LONG, LONG);
    assert_eq!(registration_gate_with(&req, Ok(()), true), Ok(()));
    assert_eq!(registration_gate_with(&req, Ok(()), false), Err(CustomResponses::InvalidRequest));
    assert_eq!(
        registration_gate_with(&req, Err(PasswordRejection::TooSimple), false),
        Err(CustomResponses::PasswordTooSimple)
    );
    assert_eq!(
        registration_gate_with(&req, Err(PasswordRejection::InternalError), true),
        Err(CustomResponses::InternalServerError)
    );
    let bad = request("h@x.com", LONG, "other");
    assert_eq!(
        registration_gate_with(&bad, Err(PasswordRejection::TooShort), false),
        Err(CustomResponses::PasswordsDontMatch)
    );
}

#[test]
fn duplicate_check_outcomes() {
    assert_eq!(duplicate_check(Ok(true)), Err(CustomResponses::EmailAlreadyInUse));
    assert_eq!(duplicate_check(Ok(false)), Ok(()));
    assert_eq!(duplicate_check(Err(())), Err(CustomResponses::InternalServerError));
}

#[test]
fn organizer_flag_sets_role() {
    assert_eq!(Role::from_flag(Some(true)), Role::Organizer);
    assert_eq!(Role::from_flag(Some(false)), Role::Standard);
    assert_eq!(Role::from_flag(None), Role::Standard);
    assert_eq!(Role::Organizer.as_str(), "organizer");
    assert_eq!(Role::Standard.as_str(), "user");
}

#[test]
fn new_account_stores_a_digest() {
    let q = RegisterQuery { fair_organizer: Some(true) };
    let u = new_account(request("i@x.com", LONG, LONG), &q, "id-1".to_string(), "key-1".to_string(), 7)
        .unwrap();
    assert_ne!(u.password, LONG);
    assert!(u.password.starts_with("$2b$12$"));
    assert_eq!(verify_password(LONG, &u.password), Ok(true));
    assert_eq!(u.role, Role::Organizer);
    assert_eq!(u.id, "id-1");
    assert_eq!(u.apikey, "key-1");
    assert_eq!(u.email, "i@x.com");
    assert_eq!(u.created_at, 7);
    assert_eq!(u.updated_at, 7);
}

#[test]
fn register_with_returns_given_token() {
    let mut db = AccountStore::new();
    let r = register_with(&mut db, request("j@x.com", LONG, LONG), standard(), false, "id-j".to_string(), "tok-j".to_string(), 1);
    assert_eq!(r, Ok("tok-j".to_string()));
    let again = register_with(&mut db, request("k@x.com", LONG, LONG), standard(), false, "id-k".to_string(), "tok-j".to_string(), 2);
    assert_eq!(again, Err(CustomResponses::InternalServerError));
    let empty = register_with(&mut db, request("l@x.com", LONG, LONG), standard(), false, "id-l".to_string(), String::new(), 3);
    assert_eq!(empty, Err(CustomResponses::InternalServerError));
    assert_eq!(db.len(), 1);
}

#[test]
fn lookups_by_each_field() {
    let mut db = AccountStore::new();
    let token = register_with(&mut db, request("m@x.com", LONG, LONG), standard(), false, "id-m".to_string(), "tok-m".to_string(), 1).unwrap();
    let by_key = get::user(&db, &token, UserSearchMode::ApiKey).unwrap();
    assert_eq!(by_key.email, "m@x.com");
    let by_id = get::user(&db, &"id-m".to_string(), UserSearchMode::Id).unwrap();
    assert_eq!(by_id.apikey, "tok-m");
    let by_email = get::user(&db, &"m@x.com".to_string(), UserSearchMode::Email).unwrap();
    assert_eq!(by_email.id, "id-m");
    assert!(get::user(&db, &"nobody@x.com".to_string(), UserSearchMode::Email).is_none());
    assert_eq!(db.find(&"id-m".to_string(), UserSearchMode::Id), Some(0));
}

#[test]
fn create_user_refuses_a_taken_email() {
    let mut db = AccountStore::new();
    let u = new_account(request("n@x.com", LONG, LONG), &standard(), "id-n".to_string(), "tok-n".to_string(), 1).unwrap();
    assert_eq!(create::user(&mut db, u), Ok("tok-n".to_string()));
    let digest = hash_password(LONG).unwrap();
    let twin = fair_registry::accounts::User {
        id: "id-other".to_string(),
        apikey: "tok-other".to_string(),
        email: "n@x.com".to_string(),
        first_name: "A".to_string(),
        last_name: "B".to_string(),
        phone_number: "1".to_string(),
        password: digest,
        role: Role::Standard,
        created_at: 0,
        updated_at: 0,
    };
    assert_eq!(create::user(&mut db, twin), Err(CustomResponses::InternalServerError));
    assert_eq!(db.len(), 1);
}

#[test]
fn login_shape_checks() {
    assert_eq!(check_login(&login_request("a@x.com", "pw")), Ok(()));
    assert_eq!(check_login(&login_request("nope", "pw")), Err(CustomResponses::InvalidRequest));
    assert_eq!(check_login(&login_request("a@x.com", "")), Err(CustomResponses::InvalidRequest));
    let db = AccountStore::new();
    assert_eq!(login(&db, &login_request("nope", "pw")).err(), Some(CustomResponses::InvalidRequest));
}

#[test]
fn login_decision_outcomes() {
    let u = new_account(request("o@x.com", LONG, LONG), &standard(), "id-o".to_string(), "tok-o".to_string(), 1).unwrap();
    let ok = login_decision(&u, Some(true)).unwrap();
    assert_eq!(ok.apikey, "tok-o");
    assert_eq!(ok.id, "id-o");
    assert_eq!(login_decision(&u, Some(false)).err(), Some(CustomResponses::InvalidEmailOrPassword));
    assert_eq!(login_decision(&u, None).err(), Some(CustomResponses::InternalServerError));
}

#[test]
fn malformed_digest_is_an_internal_error() {
    let mut db = AccountStore::new();
    let mut u = new_account(request("p@x.com", LONG, LONG), &standard(), "id-p".to_string(), "tok-p".to_string(), 1).unwrap();
    u.password = "not a digest".to_string();
    create::user(&mut db, u).unwrap();
    assert_eq!(login(&db, &login_request("p@x.com", LONG)).err(), Some(CustomResponses::InternalServerError));
}

#[test]
fn each_registration_gets_its_own_token() {
    let mut db = AccountStore::new();
    let t1 = register_with(&mut db, request("q1@x.com", LONG, LONG), standard(), false, "id-1".to_string(), "tok-1".to_string(), 1).unwrap();
    let t2 = register_with(&mut db, request("q2@x.com", LONG, LONG), standard(), false, "id-2".to_string(), "tok-2".to_string(), 2).unwrap();
    assert_ne!(t1, t2);
    assert_eq!(get::user(&db, &t1, UserSearchMode::ApiKey).unwrap().email, "q1@x.com");
    assert_eq!(get::user(&db, &t2, UserSearchMode::ApiKey).unwrap().email, "q2@x.com");
    let clash = register_with(&mut db, request("q3@x.com", LONG, LONG), standard(), false, "id-1".to_string(), "tok-3".to_string(), 3);
    assert_eq!(clash, Err(CustomResponses::InternalServerError));
    assert_eq!(db.len(), 2);
}

#[test]
fn stored_role_names_parse_back() {
    assert_eq!(Role::parse(&"organizer".to_string()), Some(Role::Organizer));
    assert_eq!(Role::parse(&"user".to_string()), Some(Role::Standard));
    assert_eq!(Role::parse(&"admin".to_string()), None);
    assert_eq!(Role::parse(&Role::Organizer.as_str().to_string()), Some(Role::Organizer));
}

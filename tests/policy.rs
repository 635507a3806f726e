use fair_registry::credentials::{hash_password, verify_password};
use fair_registry::policy::{check_password, classify_password, is_email, rejection_to_response, PasswordRejection};
use fair_registry::responses::CustomResponses;

#[test]
fn policy_verdicts() {
    assert_eq!(check_password("short", false), Err(PasswordRejection::TooShort));
    assert_eq!(check_password("", false), Err(PasswordRejection::TooShort));
    assert_eq!(check_password("correct horse battery staple 42", true), Err(PasswordRejection::TooCommon));
    assert_eq!(check_password("aaaaaaaaaa", false), Err(PasswordRejection::TooSimple));
    assert_eq!(check_password("correct horse battery staple 42", false), Ok(()));
}

#[test]
fn length_counts_bytes() {
    // five two-byte characters make ten bytes: long enough, then refused as non-ASCII
    assert_eq!(check_password("ééééé", false), Err(PasswordRejection::NonAsciiPassword));
    assert_eq!(check_password("éééé", false), Err(PasswordRejection::NonAsciiPassword));
    assert_eq!(check_password("ééé", false), Err(PasswordRejection::TooShort));
}

#[test]
fn classify_order() {
    assert_eq!(classify_password(false, true, Ok(())), Err(PasswordRejection::TooShort));
    assert_eq!(classify_password(true, true, Ok(())), Err(PasswordRejection::TooCommon));
    assert_eq!(
        classify_password(true, false, Err(PasswordRejection::TooSimple)),
        Err(PasswordRejection::TooSimple)
    );
    assert_eq!(classify_password(true, false, Ok(())), Ok(()));
}

#[test]
fn rejection_responses() {
    assert_eq!(rejection_to_response(PasswordRejection::TooShort), CustomResponses::PasswordTooShort);
    assert_eq!(rejection_to_response(PasswordRejection::TooCommon), CustomResponses::PasswordTooCommon);
    assert_eq!(rejection_to_response(PasswordRejection::TooSimple), CustomResponses::PasswordTooSimple);
    assert_eq!(rejection_to_response(PasswordRejection::NonAsciiPassword), CustomResponses::InternalServerError);
    assert_eq!(rejection_to_response(PasswordRejection::InternalError), CustomResponses::InternalServerError);
}

#[test]
fn email_shapes() {
    assert!(is_email("a@x.com"));
    assert!(!is_email("not-an-email"));
    assert!(!is_email(""));
    assert!(!is_email("a@"));
}

#[test]
fn hash_then_verify() {
    let digest = hash_password("Str0ngP@ss!").unwrap();
    assert_ne!(digest, "Str0ngP@ss!");
    assert_eq!(digest.len(), 60);
    assert_eq!(verify_password("Str0ngP@ss!", &digest), Ok(true));
    assert_eq!(verify_password("Str0ngP@ss?", &digest), Ok(false));
}

#[test]
fn malformed_digest_does_not_verify() {
    assert_eq!(verify_password("x", "garbage"), Err(CustomResponses::InternalServerError));
}

#[test]
fn response_codes_and_messages() {
    let all = [
        (CustomResponses::PasswordsDontMatch, 400, "Your passwords do not match"),
        (CustomResponses::PasswordTooShort, 400, "Your password is too short"),
        (CustomResponses::PasswordTooCommon, 400, "Your password is too common"),
        (CustomResponses::PasswordTooSimple, 400, "Your password is too simple"),
        (CustomResponses::InternalServerError, 500, "An internal error occurred"),
        (CustomResponses::EmailAlreadyInUse, 400, "Email already in use"),
        (CustomResponses::InvalidEmailOrPassword, 400, "Invalid email or password"),
        (CustomResponses::InvalidApiKey, 400, "Invalid API key"),
        (CustomResponses::InvalidPermissions, 400, "Invalid permissions"),
        (CustomResponses::InvalidRequest, 400, "Invalid request"),
    ];
    for (r, code, text) in all {
        assert_eq!(r.status_code(), code);
        assert_eq!(r.message(), text);
    }
}

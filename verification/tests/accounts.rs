use news_letter::authentication::{
    compute_password_hash, hash_password_with_salt, lanes_in_range, password_hash_from,
    password_verdict, reject_anonymous_users, validate_credentials, verify_password, Admission,
    AuthError, Credentials, PasswordCheck, StoredParameter, UserId,
};
use news_letter::http::see_other;
use news_letter::routes::admin::dashboard::admin_dashboard;
use news_letter::routes::admin::logout::log_out;
use news_letter::routes::admin::password::{
    change_password, password_changed, reject_mismatch, FormData as PasswordForm, PasswordStep,
};
use news_letter::routes::login::{
    get_encoded_string, link_with_tag, login, login_redirect, query_string, FormData as LoginForm,
    LoginError, LoginOutcome,
};
use news_letter::routes::news_letters::{
    basic_authentication, credentials_from_decoded, AuthorizationHeader, BasicAuthError,
    PublishError,
};

fn credentials(username: &str, password: &str) -> Credentials {
    Credentials { username: username.to_string(), password: password.to_string() }
}

#[test]
fn a_password_verifies_against_its_own_hash_only() {
    let hash = compute_password_hash("everythinghastostartsomewhere".to_string()).unwrap();
    assert!(hash.starts_with("$argon2id$v=19$m=15000,t=2,p=1$"));
    assert_eq!(verify_password(hash.clone(), "everythinghastostartsomewhere".to_string()), Ok(()));
    assert_eq!(
        verify_password(hash.clone(), "everythinghastostartsomewhere ".to_string()),
        Err(AuthError::InvalidCredentialsError("Invalid password".to_string()))
    );
    assert_eq!(
        verify_password(hash.clone(), hash),
        Err(AuthError::InvalidCredentialsError("Invalid password".to_string()))
    );
}

#[test]
fn a_hash_is_determined_by_password_and_salt() {
    let first = hash_password_with_salt("secret", "c29tZXNhbHQ").unwrap();
    let second = hash_password_with_salt("secret", "c29tZXNhbHQ").unwrap();
    assert_eq!(first, second);
    assert!(first.starts_with("$argon2id$v=19$m=15000,t=2,p=1$c29tZXNhbHQ$"));
    assert_ne!(first, hash_password_with_salt("secret", "b3RoZXJzYWx0").unwrap());
    assert_ne!(first, hash_password_with_salt("Secret", "c29tZXNhbHQ").unwrap());
    assert_eq!(verify_password(first, "secret".to_string()), Ok(()));
}

#[test]
fn a_salt_that_is_refused_is_an_unexpected_failure() {
    let failure = Err(AuthError::UnExceptedError("Failed to hash password".to_string()));
    assert_eq!(hash_password_with_salt("secret", ""), failure);
    assert_eq!(hash_password_with_salt("secret", "not base64!"), failure);
    assert_eq!(password_hash_from(None), failure);
    assert_eq!(password_hash_from(Some("$x".to_string())), Ok("$x".to_string()));
}

#[test]
fn two_hashes_of_one_password_differ_by_their_salt() {
    let first = compute_password_hash("secret".to_string()).unwrap();
    let second = compute_password_hash("secret".to_string()).unwrap();
    assert_ne!(first, second);
    assert_eq!(verify_password(first, "secret".to_string()), Ok(()));
    assert_eq!(verify_password(second, "secret".to_string()), Ok(()));
}

#[test]
fn a_stored_text_that_is_no_hash_is_unexpected() {
    let unparsable = Err(AuthError::UnExceptedError("Unable to parse password string".to_string()));
    assert_eq!(verify_password("".to_string(), "secret".to_string()), unparsable);
    assert_eq!(verify_password("secret".to_string(), "secret".to_string()), unparsable);
}

#[test]
fn a_stored_hash_that_asks_for_too_many_lanes_matches_nothing() {
    let mismatch = Err(AuthError::InvalidCredentialsError("Invalid password".to_string()));
    for stored in [
        "$argon2id$v=19$m=8,t=1,p=536870912$c29tZXNhbHQ$aGFzaGhhc2hoYXNoaGFzaA",
        "$argon2id$v=19$m=8,t=1,p=4294967295$c29tZXNhbHQ$aGFzaGhhc2hoYXNoaGFzaA",
        "$argon2id$v=19$m=8,t=1,p=16777216$c29tZXNhbHQ$aGFzaGhhc2hoYXNoaGFzaA",
        "$argon2id$v=19$m=8,t=1,p=1,p=536870912$c29tZXNhbHQ$aGFzaGhhc2hoYXNoaGFzaA",
        "$argon2id$v=19$p=536870912,m=8,t=1,p=1$c29tZXNhbHQ$aGFzaGhhc2hoYXNoaGFzaA",
    ] {
        assert_eq!(verify_password(stored.to_string(), "secret".to_string()), mismatch);
    }
}

#[test]
fn a_stored_hash_at_the_limit_of_lanes_goes_to_argon2() {
    // Argon2 refuses it for want of memory: a mismatch, not a failure.
    let stored = "$argon2id$v=19$m=8,t=1,p=16777215$c29tZXNhbHQ$aGFzaGhhc2hoYXNoaGFzaA";
    assert_eq!(
        verify_password(stored.to_string(), "secret".to_string()),
        Err(AuthError::InvalidCredentialsError("Invalid password".to_string()))
    );
    // A value that is no number is refused by Argon2 as well.
    let stored = "$argon2id$v=19$m=8,t=1,p=many$c29tZXNhbHQ$aGFzaGhhc2hoYXNoaGFzaA";
    assert_eq!(
        verify_password(stored.to_string(), "secret".to_string()),
        Err(AuthError::InvalidCredentialsError("Invalid password".to_string()))
    );
}

#[test]
fn lanes_are_in_range_up_to_the_limit() {
    let parameter = |name: &str, decimal| StoredParameter { name: name.to_string(), decimal };
    assert!(lanes_in_range(&vec![]));
    assert!(lanes_in_range(&vec![parameter("m", Some(4294967295)), parameter("p", Some(1))]));
    assert!(lanes_in_range(&vec![parameter("p", Some(16777215))]));
    assert!(lanes_in_range(&vec![parameter("p", None)]));
    assert!(!lanes_in_range(&vec![parameter("p", Some(16777216))]));
    assert!(!lanes_in_range(&vec![parameter("p", Some(1)), parameter("p", Some(536870912))]));
    assert!(lanes_in_range(&vec![parameter("P", Some(536870912))]));
}

#[test]
fn a_drawn_salt_is_22_characters_of_base64() {
    let hash = compute_password_hash("secret".to_string()).unwrap();
    let salt = hash.split('$').nth(4).unwrap();
    assert_eq!(salt.len(), 22);
    assert!(salt.chars().all(|c| c.is_ascii_alphanumeric() || c == '+' || c == '/'));
}

#[test]
fn verdict_by_check() {
    assert_eq!(password_verdict(PasswordCheck::Match), Ok(()));
    assert_eq!(
        password_verdict(PasswordCheck::Mismatch),
        Err(AuthError::InvalidCredentialsError("Invalid password".to_string()))
    );
    assert_eq!(
        password_verdict(PasswordCheck::Unparsable),
        Err(AuthError::UnExceptedError("Unable to parse password string".to_string()))
    );
}

#[test]
fn credentials_are_validated_against_what_is_stored() {
    let hash = compute_password_hash("secret".to_string()).unwrap();
    assert_eq!(
        validate_credentials(credentials("admin", "secret"), Some((UserId(9), hash.clone()))),
        Ok(UserId(9))
    );
    assert_eq!(
        validate_credentials(credentials("admin", "wrong"), Some((UserId(9), hash))),
        Err(AuthError::InvalidCredentialsError("Invalid password".to_string()))
    );
    assert_eq!(
        validate_credentials(credentials("nobody", "secret"), None),
        Err(AuthError::InvalidCredentialsError("Incorrect username".to_string()))
    );
    assert_eq!(
        validate_credentials(credentials("admin", "secret"), Some((UserId(9), "x".to_string()))),
        Err(AuthError::UnExceptedError("Unable to parse password string".to_string()))
    );
}

#[test]
fn auth_errors_in_their_own_words() {
    assert_eq!(
        AuthError::InvalidCredentialsError("Invalid password".to_string()).message(),
        "Invalid Credentials"
    );
    assert_eq!(AuthError::UnExceptedError("the cause".to_string()).message(), "the cause");
}

#[test]
fn anonymous_users_are_sent_to_the_login_page() {
    assert_eq!(reject_anonymous_users(Some(UserId(3))), Admission::Admit(UserId(3)));
    assert_eq!(reject_anonymous_users(None), Admission::Redirect(see_other("/login")));
}

#[test]
fn basic_credentials_are_read_from_the_header() {
    let header = AuthorizationHeader::Text("Basic YWRtaW46ZXZlcnl0aGluZzpoYXM=".to_string());
    let read = basic_authentication(header).unwrap();
    assert_eq!(read.username, "admin");
    assert_eq!(read.password, "everything:has");

    let header = AuthorizationHeader::Text("Basic dXJzdWxhOnDDpHNz".to_string());
    let read = basic_authentication(header).unwrap();
    assert_eq!(read.username, "ursula");
    assert_eq!(read.password, "p\u{e4}ss");

    let header = AuthorizationHeader::Text("Basic OnB3".to_string());
    let read = basic_authentication(header).unwrap();
    assert_eq!(read.username, "");
    assert_eq!(read.password, "pw");
}

#[test]
fn each_fault_of_a_basic_header_is_told_apart() {
    let fault = |header| basic_authentication(header).unwrap_err();
    assert_eq!(fault(AuthorizationHeader::Absent), BasicAuthError::MissingHeader);
    assert_eq!(fault(AuthorizationHeader::Unreadable), BasicAuthError::NotText);
    assert_eq!(
        fault(AuthorizationHeader::Text("Bearer YWRtaW4=".to_string())),
        BasicAuthError::NotBasic
    );
    assert_eq!(fault(AuthorizationHeader::Text("Basic".to_string())), BasicAuthError::NotBasic);
    assert_eq!(
        fault(AuthorizationHeader::Text("basic YWRtaW4=".to_string())),
        BasicAuthError::NotBasic
    );
    assert_eq!(
        fault(AuthorizationHeader::Text("Basic not base64!".to_string())),
        BasicAuthError::NotBase64
    );
    assert_eq!(
        fault(AuthorizationHeader::Text("Basic //46cHc=".to_string())),
        BasicAuthError::NotUtf8
    );
    assert_eq!(
        fault(AuthorizationHeader::Text("Basic YWRtaW4=".to_string())),
        BasicAuthError::MissingPassword
    );
    assert_eq!(
        fault(AuthorizationHeader::Text("Basic ".to_string())),
        BasicAuthError::MissingPassword
    );
}

#[test]
fn decoded_basic_data_is_split_at_the_first_colon() {
    let read = credentials_from_decoded(Some(b"a:b:c".to_vec())).unwrap();
    assert_eq!((read.username.as_str(), read.password.as_str()), ("a", "b:c"));
    assert_eq!(credentials_from_decoded(None).unwrap_err(), BasicAuthError::NotBase64);
    assert_eq!(
        credentials_from_decoded(Some(vec![0xc3, 0x28])).unwrap_err(),
        BasicAuthError::NotUtf8
    );
    assert_eq!(
        credentials_from_decoded(Some(b"no colon".to_vec())).unwrap_err(),
        BasicAuthError::MissingPassword
    );
}

#[test]
fn basic_auth_errors_in_words() {
    assert_eq!(
        BasicAuthError::MissingHeader.message(),
        "The 'Authorization header was missing'"
    );
    assert_eq!(
        BasicAuthError::NotText.message(),
        "The Authorization header was not a valid string"
    );
    assert_eq!(BasicAuthError::NotBasic.message(), "Authorization header did not match");
    assert_eq!(BasicAuthError::NotBase64.message(), "Authorization data not encoded properly");
    assert_eq!(BasicAuthError::NotUtf8.message(), "Unable to decode properly");
    assert_eq!(BasicAuthError::MissingPassword.message(), " A password must be provided ");
}

#[test]
fn publish_errors_map_to_status_and_response() {
    let unexpected = PublishError::UnExceptedError("boom".to_string());
    assert_eq!(unexpected.status_code(), 500);
    assert_eq!(unexpected.error_response().status_code, 500);
    assert!(unexpected.error_response().headers.is_empty());
    assert_eq!(unexpected.message(), "boom");

    let auth = PublishError::AuthError("no".to_string());
    assert_eq!(auth.status_code(), 401);
    let response = auth.error_response();
    assert_eq!(response.status_code, 401);
    assert_eq!(response.headers.len(), 1);
    assert_eq!(response.headers[0].name, "WWW-Authenticate");
    assert_eq!(response.headers[0].value, r#"Basic realm="publish""#);
    assert!(response.body.is_empty());
    assert_eq!(auth.message(), "Authentication failed.");
}

#[test]
fn a_known_user_is_sent_to_the_dashboard() {
    assert_eq!(
        login(Ok(UserId(5))),
        LoginOutcome::LoggedIn(UserId(5), see_other("/admin/dashboard"))
    );
}

#[test]
fn wrong_credentials_are_sent_back_to_the_login_page() {
    let outcome = login(Err(AuthError::InvalidCredentialsError("Invalid password".to_string())));
    match outcome {
        LoginOutcome::Refused(refusal) => {
            assert_eq!(refusal.error, LoginError::AuthError("Invalid Credentials".to_string()));
            assert_eq!(refusal.flash, "Authentication failed");
            assert_eq!(refusal.response, see_other("/login"));
        }
        other => panic!("expected a refusal, got {:?}", other),
    }
    let outcome = login(Err(AuthError::UnExceptedError("pool timed out".to_string())));
    match outcome {
        LoginOutcome::Refused(refusal) => {
            assert_eq!(refusal.error, LoginError::UnexpectedError("pool timed out".to_string()));
            assert_eq!(refusal.flash, "Something went wrong");
            assert_eq!(refusal.response, see_other("/login"));
        }
        other => panic!("expected a refusal, got {:?}", other),
    }
}

#[test]
fn a_failure_after_validation_is_sent_home() {
    let refusal = login_redirect(LoginError::UnexpectedError("session store".to_string()));
    assert_eq!(refusal.flash, "Something went wrong");
    assert_eq!(refusal.response, see_other("/"));
    assert_eq!(refusal.error, LoginError::UnexpectedError("session store".to_string()));
}

#[test]
fn login_form_gives_credentials() {
    let form = LoginForm { username: "admin".to_string(), password: "pw".to_string() };
    let read = form.credentials();
    assert_eq!((read.username.as_str(), read.password.as_str()), ("admin", "pw"));
}

#[test]
fn error_links_are_encoded_and_tagged() {
    assert_eq!(query_string("Authentication failed"), "error=Authentication%20failed");
    assert_eq!(
        query_string("Gr\u{fc}\u{df}e & co/~x_y-z.1"),
        "error=Gr%C3%BC%C3%9Fe%20%26%20co%2F~x_y-z.1"
    );
    assert_eq!(
        get_encoded_string(
            "/login",
            "Authentication failed".to_string(),
            &"super-secret".to_string()
        ),
        "/login?error=Authentication%20failed&tag=11ad9f3c2f62e6cf4b8ab82b6da60245557aada737cb7a40d475d078458f9a2c"
    );
    assert_eq!(
        get_encoded_string("", String::new(), &String::new()),
        "?error=&tag=de5b1981c583b3619d6f899e368b5249559275c9495c9413f2dee80bf7450e4a"
    );
    assert_eq!(link_with_tag("/x", "a=b", &vec![0x00, 0x0f, 0xa0, 0xff]), "/x?a=b&tag=000fa0ff");
}

#[test]
fn two_different_new_passwords_are_refused() {
    let form = PasswordForm {
        current_password: "old".to_string(),
        new_password: "new-1".to_string(),
        new_password_check: "new-2".to_string(),
    };
    let notice = reject_mismatch(&form).unwrap();
    assert_eq!(
        notice.flash,
        "You entered two different new passwords - the field values must match."
    );
    assert_eq!(notice.response, see_other("/admin/password"));
    let form = PasswordForm { new_password_check: "new-1".to_string(), ..form };
    assert!(reject_mismatch(&form).is_none());
}

#[test]
fn the_current_password_decides_the_change() {
    assert_eq!(change_password(Ok(UserId(1))), PasswordStep::Store);
    match change_password(Err(AuthError::InvalidCredentialsError("Invalid password".to_string()))) {
        PasswordStep::Refuse(notice) => {
            assert_eq!(notice.flash, "The current password must be valid");
            assert_eq!(notice.response, see_other("/admin/password"));
        }
        other => panic!("expected a refusal, got {:?}", other),
    }
    assert_eq!(
        change_password(Err(AuthError::UnExceptedError("pool timed out".to_string()))),
        PasswordStep::Fail("pool timed out".to_string())
    );
    let done = password_changed();
    assert_eq!(done.flash, "Your password has been changed.");
    assert_eq!(done.response, see_other("/admin/password"));
}

#[test]
fn logging_out_ends_a_session_that_holds_a_user() {
    let with_user = log_out(Some(UserId(1)));
    assert!(with_user.end_session);
    assert_eq!(with_user.flash.as_deref(), Some("You have successfully logged out."));
    assert_eq!(with_user.response, see_other("/login"));
    let anonymous = log_out(None);
    assert!(!anonymous.end_session);
    assert!(anonymous.flash.is_none());
    assert_eq!(anonymous.response, see_other("/login"));
}

#[test]
fn the_dashboard_welcomes_the_user_by_name() {
    let page = admin_dashboard("ursula");
    assert!(page.starts_with("<!DOCTYPE html>\n    <html lang=\"en\">"));
    assert!(page.contains("<p>Welcome ursula!</p>\n        <p>Available actions:</p>"));
    assert!(page.contains("<li><a href=\"/admin/password\">Change password</a></li>"));
    assert!(page.ends_with("</body>\n    </html>"));
    assert_eq!(admin_dashboard("").len() + 6, page.len());
}

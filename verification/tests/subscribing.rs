use news_letter::domains::new_subscriber::NewSubscriber;
use news_letter::routes::news_letters::{delivery_failure_message, get_confirmed_subscribers};
use news_letter::routes::subscriptions::{
    confirmation_email, confirmation_link, generate_subscription_token, subscriptions, FormData,
    StoreTokenError, SubscribeError,
};
use news_letter::routes::subscriptions_confirm::{
    confirm, get_subscription_id_from_token, Parameters, TokenLookup,
};

fn form(name: &str, email: &str) -> FormData {
    FormData { email: email.to_string(), name: name.to_string() }
}

#[test]
fn a_valid_form_makes_a_subscriber() {
    let subscriber = NewSubscriber::try_from(form("le guin", "ursula_le_guin@gmail.com")).unwrap();
    assert_eq!(subscriber.name.as_ref(), "le guin");
    assert_eq!(subscriber.email.as_ref(), "ursula_le_guin@gmail.com");
}

#[test]
fn the_name_is_looked_at_before_the_address() {
    assert_eq!(
        NewSubscriber::try_from(form("", "not an address")).unwrap_err(),
        " is not a valid subscriber name"
    );
    assert_eq!(
        NewSubscriber::try_from(form("le guin", "not an address")).unwrap_err(),
        "not an address is not a valid email"
    );
    assert_eq!(
        NewSubscriber::try_from(form("le {guin}", "ursula_le_guin@gmail.com")).unwrap_err(),
        "le {guin} is not a valid subscriber name"
    );
}

#[test]
fn a_refused_form_is_a_validation_error() {
    let error = subscriptions(form("le guin", "")).unwrap_err();
    assert_eq!(error, SubscribeError::ValidationError(" is not a valid email".to_string()));
    assert_eq!(error.status_code(), 400);
    assert_eq!(error.message(), " is not a valid email");
    let unexpected = SubscribeError::UnExceptedError("pool timed out".to_string());
    assert_eq!(unexpected.status_code(), 500);
    assert_eq!(unexpected.message(), "pool timed out");
}

#[test]
fn an_accepted_form_gets_a_token() {
    let (subscriber, token) = subscriptions(form("le guin", "ursula_le_guin@gmail.com")).unwrap();
    assert_eq!(subscriber.email.as_ref(), "ursula_le_guin@gmail.com");
    assert_eq!(token.chars().count(), 25);
    assert!(token.chars().all(|c| c.is_ascii_alphanumeric()));
}

#[test]
fn tokens_are_25_letters_and_digits_and_differ() {
    let first = generate_subscription_token();
    let second = generate_subscription_token();
    for token in [&first, &second] {
        assert_eq!(token.chars().count(), 25);
        assert!(token.chars().all(|c| c.is_ascii_alphanumeric()));
    }
    assert_ne!(first, second);
}

#[test]
fn confirmation_link_carries_the_token() {
    assert_eq!(
        confirmation_link("http://127.0.0.1", "mytoken"),
        "http://127.0.0.1/subscriptions/confirm?subscription_token=mytoken"
    );
}

#[test]
fn confirmation_email_holds_the_link_in_both_bodies() {
    let subscriber = NewSubscriber::try_from(form("le guin", "ursula_le_guin@gmail.com")).unwrap();
    let email = confirmation_email(subscriber, "http://127.0.0.1", "mytoken");
    assert_eq!(email.recipient.as_ref(), "ursula_le_guin@gmail.com");
    assert_eq!(email.subject, "Welcome!");
    assert_eq!(
        email.html_content,
        "Welcome to our newsletter!\nVisit http://127.0.0.1/subscriptions/confirm?subscription_token=mytoken to confirm your subscription."
    );
    assert_eq!(
        email.text_content,
        "Welcome to our newsletter!<br />Click <a href=\"http://127.0.0.1/subscriptions/confirm?subscription_token=mytoken\">here</a> to confirm your subscription."
    );
}

#[test]
fn store_token_error_in_words() {
    let error = StoreTokenError("duplicate key".to_string());
    assert_eq!(
        error.message(),
        "A database failure was encountered while trying to store a subscription token."
    );
    assert_eq!(error.source(), "duplicate key");
}

#[test]
fn a_confirmation_is_answered_by_what_the_store_did() {
    assert_eq!(get_subscription_id_from_token(TokenLookup::Found(12)), Ok(12));
    assert_eq!(
        get_subscription_id_from_token(TokenLookup::Unknown).unwrap_err().status_code,
        500
    );
    assert_eq!(
        get_subscription_id_from_token(TokenLookup::Failed).unwrap_err().status_code,
        500
    );
    assert_eq!(confirm(true).status_code, 200);
    assert_eq!(confirm(false).status_code, 500);
    assert!(confirm(true).headers.is_empty());
    assert!(confirm(true).body.is_empty());
    assert_eq!(Parameters { subscription_token: "t".to_string() }.subscription_token, "t");
}

#[test]
fn stored_addresses_are_parsed_each_on_its_own() {
    let parsed = get_confirmed_subscribers(vec![
        "a@example.com".to_string(),
        "not an address".to_string(),
        "b@example.com".to_string(),
    ]);
    assert_eq!(parsed.len(), 3);
    assert_eq!(parsed[0].as_ref().unwrap().as_ref(), "a@example.com");
    assert_eq!(parsed[1].as_ref().unwrap_err(), "not an address is not a valid email");
    assert_eq!(parsed[2].as_ref().unwrap().as_ref(), "b@example.com");
    assert_eq!(
        delivery_failure_message(parsed[0].as_ref().unwrap()),
        "Unable to send email to a@example.com"
    );
    assert!(get_confirmed_subscribers(Vec::new()).is_empty());
}

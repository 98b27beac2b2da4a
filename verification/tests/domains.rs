use news_letter::domains::subscriber_email::SubscriberEmail;
use news_letter::domains::subscriber_name::SubscriberName;

#[test]
fn empty_string_is_rejected() {
    let email = "".to_string();
    assert!(SubscriberEmail::parse(email).is_err());
}

#[test]
fn reject_email_with_missing_at_symbol() {
    let email = "shatya.com".to_string();
    assert!(SubscriberEmail::parse(email).is_err());
}

#[test]
fn reject_email_with_subject_missing() {
    let email = "domain.com".to_string();
    assert!(SubscriberEmail::parse(email).is_err());
}

#[test]
fn valid_email_is_accepted_unchanged() {
    let email = SubscriberEmail::parse("ursula_le_guin@gmail.com".to_string()).unwrap();
    assert_eq!(email.as_ref(), "ursula_le_guin@gmail.com");
}

#[test]
fn rejected_email_is_reported_in_the_message() {
    let error = SubscriberEmail::parse("@domain.com".to_string()).unwrap_err();
    assert_eq!(error, "@domain.com is not a valid email");
}

#[test]
fn a_256_graphene_long_name_is_valid() {
    let name = "a".repeat(256);
    assert!(SubscriberName::parse(name).is_ok());
}

#[test]
fn a_name_longer_then_256_is_rejected() {
    let name = "a".repeat(257);
    assert!(SubscriberName::parse(name).is_err());
}

#[test]
fn white_spaced_names_are_rejected() {
    let name = " ".to_string();
    assert!(SubscriberName::parse(name).is_err());
}

#[test]
fn names_containing_invalid_character_rejected() {
    for name in &['/', '(', ')', '"', '<', '>', '\\', '{', '}'] {
        assert!(SubscriberName::parse(name.to_string()).is_err());
    }
}

#[test]
fn valid_name_parsed_successfully() {
    let name = "Valid name".to_string();
    assert!(SubscriberName::parse(name.to_string()).is_ok());
}

#[test]
fn names_of_spaces_line_feeds_and_no_break_spaces_are_rejected() {
    for name in [" ", "   ", "\n", "\u{a0}", " \n\u{a0} "] {
        assert!(SubscriberName::parse(name.to_string()).is_err());
    }
}

#[test]
fn empty_name_is_rejected() {
    assert!(SubscriberName::parse(String::new()).is_err());
}

#[test]
fn name_of_tabs_and_line_breaks_is_rejected() {
    assert!(SubscriberName::parse("\t\n \u{a0}\u{3000}".to_string()).is_err());
}

#[test]
fn graphemes_are_counted_not_characters() {
    // 256 clusters of two characters each: a letter and a combining accent.
    let name = "e\u{301}".repeat(256);
    assert_eq!(name.chars().count(), 512);
    assert!(SubscriberName::parse(name).is_ok());
    let name = "e\u{301}".repeat(257);
    assert!(SubscriberName::parse(name).is_err());
}

#[test]
fn rejected_name_is_reported_in_the_message() {
    let error = SubscriberName::parse("a<b".to_string()).unwrap_err();
    assert_eq!(error, "a<b is not a valid subscriber name");
}

#[test]
fn accepted_name_is_kept_unchanged() {
    let name = SubscriberName::parse("le guin".to_string()).unwrap();
    assert_eq!(name.as_ref(), "le guin");
}

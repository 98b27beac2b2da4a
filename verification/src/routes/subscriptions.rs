use crate::domains::new_subscriber::NewSubscriber;
use crate::domains::subscriber_email::{email_is_valid, invalid_email_message, SubscriberEmail};
use crate::domains::subscriber_name::{invalid_name_message, name_is_valid, SubscriberName};
use crate::http::{BAD_REQUEST, INTERNAL_SERVER_ERROR};
use crate::issue_delivery_worker::{Email, EmailView};
use crate::text::push_char;
use rand::Rng;
use vstd::prelude::*;

verus! {

/// The length of a subscription token, in characters.
pub const TOKEN_LENGTH: usize = 25;

/// What a person submits to subscribe.
#[derive(Debug, Clone)]
pub struct FormData {
    pub email: String,
    pub name: String,
}

/// Why subscribing failed.
#[derive(Debug, Clone, PartialEq, Eq)]
pub enum SubscribeError {
    /// The form is refused, with the reason.
    ValidationError(String),
    /// The system failed, with the cause.
    UnExceptedError(String),
}

impl SubscribeError {
    /// The status code that reports the error.
    pub open spec fn status(self) -> u16 {
        match self {
            SubscribeError::ValidationError(_) => BAD_REQUEST,
            SubscribeError::UnExceptedError(_) => INTERNAL_SERVER_ERROR,
        }
    }

    /// 400 for a refused form, 500 for a failure of the system.
    pub fn status_code(&self) -> (code: u16)
        ensures
            code == self.status(),
    {
        match self {
            SubscribeError::ValidationError(_) => BAD_REQUEST,
            SubscribeError::UnExceptedError(_) => INTERNAL_SERVER_ERROR,
        }
    }

    /// What the error says of itself: the reason, or the cause.
    pub fn message(&self) -> (message: String)
        ensures
            message@ == (match self {
                SubscribeError::ValidationError(reason) => reason@,
                SubscribeError::UnExceptedError(cause) => cause@,
            }),
    {
        match self {
            SubscribeError::ValidationError(reason) => reason.clone(),
            SubscribeError::UnExceptedError(cause) => cause.clone(),
        }
    }
}

/// The failure to store a subscription token, with the store's own words.
#[derive(Debug, Clone, PartialEq, Eq)]
pub struct StoreTokenError(pub String);

impl StoreTokenError {
    /// What the error says of itself.
    pub fn message(&self) -> (message: String)
        ensures
            message@
                == "A database failure was encountered while trying to store a subscription token."@,
    {
        "A database failure was encountered while trying to store a subscription token.".to_owned()
    }

    /// What the store said.
    pub fn source(&self) -> (cause: &str)
        ensures
            cause@ == self.0@,
    {
        self.0.as_str()
    }
}

/// Why a form makes no subscriber: the name is looked at first.
pub open spec fn form_fault(name: Seq<char>, email: Seq<char>) -> Option<Seq<char>> {
    if !name_is_valid(name) {
        Some(invalid_name_message(name))
    } else if !email_is_valid(email) {
        Some(invalid_email_message(email))
    } else {
        None
    }
}

impl NewSubscriber {
    /// The subscriber that a form describes, where name and address are valid.
    pub fn try_from(value: FormData) -> (result: Result<NewSubscriber, String>)
        ensures
            match result {
                Ok(subscriber) => {
                    &&& form_fault(value.name@, value.email@) is None
                    &&& subscriber.name@ == value.name@
                    &&& subscriber.email@ == value.email@
                },
                Err(message) => form_fault(value.name@, value.email@) == Some(message@),
            },
    {
        let name = match SubscriberName::parse(value.name) {
            Ok(name) => name,
            Err(message) => {
                return Err(message);
            },
        };
        let email = match SubscriberEmail::parse(value.email) {
            Ok(email) => email,
            Err(message) => {
                return Err(message);
            },
        };
        Ok(NewSubscriber { email, name })
    }
}

/// An ASCII letter or digit.
pub open spec fn is_alphanumeric(byte: u8) -> bool {
    (0x30 <= byte <= 0x39) || (0x41 <= byte <= 0x5a) || (0x61 <= byte <= 0x7a)
}

/// Draws one byte from `rand::distributions::Alphanumeric` with
/// `rand::thread_rng`. Trusted: whichever byte is drawn, it is an ASCII
/// letter or digit.
#[verifier::external_body]
fn sample_alphanumeric() -> (byte: u8)
    ensures
        is_alphanumeric(byte),
{
    rand::thread_rng().sample(rand::distributions::Alphanumeric)
}

/// A text that a subscription token can be: 25 characters, each an ASCII
/// letter or digit.
pub open spec fn is_token(token: Seq<char>) -> bool {
    &&& token.len() == TOKEN_LENGTH
    &&& forall|i: int| 0 <= i < token.len() ==> is_alphanumeric(#[trigger] token[i] as u8)
    &&& forall|i: int| 0 <= i < token.len() ==> (#[trigger] token[i] as u32) < 128
}

/// A fresh subscription token: 25 characters drawn at random, each an ASCII
/// letter or digit.
pub fn generate_subscription_token() -> (token: String)
    ensures
        is_token(token@),
{
    let mut token = String::new();
    let mut i: usize = 0;
    while i < TOKEN_LENGTH
        invariant
            i <= TOKEN_LENGTH,
            token@.len() == i,
            forall|j: int| 0 <= j < i ==> is_alphanumeric(#[trigger] token@[j] as u8),
            forall|j: int| 0 <= j < i ==> (#[trigger] token@[j] as u32) < 128,
        decreases TOKEN_LENGTH - i,
    {
        let byte = sample_alphanumeric();
        push_char(&mut token, byte as char);
        i += 1;
    }
    token
}

/// The link that confirms the subscription of the holder of `token`.
pub open spec fn confirmation_link_view(base_url: Seq<char>, token: Seq<char>) -> Seq<char> {
    base_url + "/subscriptions/confirm?subscription_token="@ + token
}

/// The link that confirms the subscription of the holder of the token.
pub fn confirmation_link(base_url: &str, subscription_token: &str) -> (link: String)
    ensures
        link@ == confirmation_link_view(base_url@, subscription_token@),
{
    let mut link = base_url.to_owned();
    link.append("/subscriptions/confirm?subscription_token=");
    link.append(subscription_token);
    link
}

/// The welcome in plain text, with the link.
pub open spec fn plain_welcome(link: Seq<char>) -> Seq<char> {
    "Welcome to our newsletter!\nVisit "@ + link + " to confirm your subscription."@
}

/// The welcome as HTML, with the link.
pub open spec fn html_welcome(link: Seq<char>) -> Seq<char> {
    "Welcome to our newsletter!<br />Click <a href=\""@ + link
        + "\">here</a> to confirm your subscription."@
}

/// The message that asks a new subscriber to confirm. The plain welcome is
/// handed over in the place of the HTML content and the HTML welcome in the
/// place of the text content.
pub fn confirmation_email(new_subscriber: NewSubscriber, base_url: &str, subscription_token: &str) -> (email:
    Email)
    ensures
        email@ == (EmailView {
            recipient: new_subscriber.email@,
            subject: "Welcome!"@,
            html_content: plain_welcome(confirmation_link_view(base_url@, subscription_token@)),
            text_content: html_welcome(confirmation_link_view(base_url@, subscription_token@)),
        }),
{
    let link = confirmation_link(base_url, subscription_token);
    let mut plain_body = "Welcome to our newsletter!\nVisit ".to_owned();
    plain_body.append(link.as_str());
    plain_body.append(" to confirm your subscription.");
    let mut html_body = "Welcome to our newsletter!<br />Click <a href=\"".to_owned();
    html_body.append(link.as_str());
    html_body.append("\">here</a> to confirm your subscription.");
    Email {
        recipient: new_subscriber.email,
        subject: "Welcome!".to_owned(),
        html_content: plain_body,
        text_content: html_body,
    }
}

/// Accepts a subscription form: the subscriber it describes, with a fresh
/// token, or the refusal.
pub fn subscriptions(form: FormData) -> (result: Result<(NewSubscriber, String), SubscribeError>)
    ensures
        match result {
            Ok((subscriber, token)) => {
                &&& form_fault(form.name@, form.email@) is None
                &&& subscriber.name@ == form.name@
                &&& subscriber.email@ == form.email@
                &&& is_token(token@)
            },
            Err(error) => error matches SubscribeError::ValidationError(reason) && form_fault(
                form.name@,
                form.email@,
            ) == Some(reason@),
        },
{
    match NewSubscriber::try_from(form) {
        Err(reason) => Err(SubscribeError::ValidationError(reason)),
        Ok(subscriber) => Ok((subscriber, generate_subscription_token())),
    }
}

} // verus!

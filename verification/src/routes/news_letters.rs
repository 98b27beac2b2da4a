use crate::authentication::Credentials;
use crate::domains::subscriber_email::{email_is_valid, invalid_email_message, SubscriberEmail};
use crate::http::{
    bare_view, HeaderPair, Response, ResponseView, INTERNAL_SERVER_ERROR, UNAUTHORIZED,
};
use crate::text::{split_once, starts_with, strip_prefix};
use base64::Engine;
use vstd::prelude::*;
use vstd::utf8::{decode_utf8, valid_utf8};

verus! {

/// An issue as a client posts it.
#[derive(Debug, Clone)]
pub struct NewsLetter {
    pub title: String,
    pub content: Content,
}

/// The two bodies of an issue.
#[derive(Debug, Clone)]
pub struct Content {
    pub text: String,
    pub html: String,
}

/// Why publishing was refused, with what is known of the cause.
#[derive(Debug, Clone, PartialEq, Eq)]
pub enum PublishError {
    UnExceptedError(String),
    AuthError(String),
}

/// The answer to a request without valid credentials: status 401 and the
/// challenge for the realm `publish`.
pub open spec fn challenge_view() -> ResponseView {
    ResponseView {
        status_code: UNAUTHORIZED,
        headers: seq![("WWW-Authenticate"@, "Basic realm=\"publish\""@)],
        body: Seq::<u8>::empty(),
    }
}

impl PublishError {
    /// The status code that reports the error.
    pub open spec fn status(self) -> u16 {
        match self {
            PublishError::UnExceptedError(_) => INTERNAL_SERVER_ERROR,
            PublishError::AuthError(_) => UNAUTHORIZED,
        }
    }

    /// 500 for a failure of the system, 401 for missing or wrong credentials.
    pub fn status_code(&self) -> (code: u16)
        ensures
            code == self.status(),
    {
        match self {
            PublishError::UnExceptedError(_) => INTERNAL_SERVER_ERROR,
            PublishError::AuthError(_) => UNAUTHORIZED,
        }
    }

    /// The response that reports the error: a bare 500, or the 401 with its
    /// challenge.
    pub fn error_response(&self) -> (response: Response)
        ensures
            response@ == (match self {
                PublishError::UnExceptedError(_) => bare_view(INTERNAL_SERVER_ERROR),
                PublishError::AuthError(_) => challenge_view(),
            }),
    {
        match self {
            PublishError::UnExceptedError(_) => Response::new(INTERNAL_SERVER_ERROR),
            PublishError::AuthError(_) => {
                let mut headers: Vec<HeaderPair> = Vec::new();
                headers.push(
                    HeaderPair {
                        name: "WWW-Authenticate".to_owned(),
                        value: "Basic realm=\"publish\"".to_owned(),
                    },
                );
                let response = Response { status_code: UNAUTHORIZED, headers, body: Vec::new() };
                assert(response@.headers =~= challenge_view().headers);
                response
            },
        }
    }

    /// What the error says of itself.
    pub fn message(&self) -> (message: String)
        ensures
            message@ == (match self {
                PublishError::UnExceptedError(cause) => cause@,
                PublishError::AuthError(_) => "Authentication failed."@,
            }),
    {
        match self {
            PublishError::UnExceptedError(cause) => cause.clone(),
            PublishError::AuthError(_) => "Authentication failed.".to_owned(),
        }
    }
}

/// The `Authorization` header of a request, as far as it could be read.
#[derive(Debug, Clone)]
pub enum AuthorizationHeader {
    /// The request has no such header.
    Absent,
    /// The header's value is no text.
    Unreadable,
    /// The header's value.
    Text(String),
}

/// Why a request carries no usable `Basic` credentials.
#[derive(Debug, Clone, Copy, PartialEq, Eq, Structural)]
pub enum BasicAuthError {
    MissingHeader,
    NotText,
    NotBasic,
    NotBase64,
    NotUtf8,
    MissingPassword,
}

impl BasicAuthError {
    /// The refusal in words.
    pub open spec fn text(self) -> Seq<char> {
        match self {
            BasicAuthError::MissingHeader => "The 'Authorization header was missing'"@,
            BasicAuthError::NotText => "The Authorization header was not a valid string"@,
            BasicAuthError::NotBasic => "Authorization header did not match"@,
            BasicAuthError::NotBase64 => "Authorization data not encoded properly"@,
            BasicAuthError::NotUtf8 => "Unable to decode properly"@,
            BasicAuthError::MissingPassword => " A password must be provided "@,
        }
    }

    /// The refusal in words.
    pub fn message(&self) -> (message: String)
        ensures
            message@ == self.text(),
    {
        match self {
            BasicAuthError::MissingHeader => "The 'Authorization header was missing'".to_owned(),
            BasicAuthError::NotText => "The Authorization header was not a valid string".to_owned(),
            BasicAuthError::NotBasic => "Authorization header did not match".to_owned(),
            BasicAuthError::NotBase64 => "Authorization data not encoded properly".to_owned(),
            BasicAuthError::NotUtf8 => "Unable to decode properly".to_owned(),
            BasicAuthError::MissingPassword => " A password must be provided ".to_owned(),
        }
    }
}

/// The bytes that `encoded` stands for in standard base64 with padding, as
/// the engine `base64::engine::general_purpose::STANDARD` decodes it; `None`
/// where that engine refuses the text.
pub uninterp spec fn base64_decoded(encoded: Seq<char>) -> Option<Seq<u8>>;

/// Calls `Engine::decode` on the engine `general_purpose::STANDARD`.
/// Trusted: the outcome depends on the text alone.
#[verifier::external_body]
fn decode_base64(encoded: &str) -> (decoded: Option<Vec<u8>>)
    ensures
        decoded is Some <==> base64_decoded(encoded@) is Some,
        decoded matches Some(bytes) ==> base64_decoded(encoded@) == Some(bytes@),
{
    base64::engine::general_purpose::STANDARD.decode(encoded).ok()
}

/// Calls `String::from_utf8`. Trusted: the bytes are accepted exactly when
/// they are valid UTF-8, and the text is then what they encode.
#[verifier::external_body]
fn string_from_utf8(bytes: Vec<u8>) -> (text: Option<String>)
    ensures
        text is Some <==> valid_utf8(bytes@),
        text matches Some(decoded) ==> decoded@ == decode_utf8(bytes@),
{
    String::from_utf8(bytes).ok()
}

/// Decoded data as plain values.
pub open spec fn bytes_view(decoded: Option<Vec<u8>>) -> Option<Seq<u8>> {
    match decoded {
        Some(bytes) => Some(bytes@),
        None => None,
    }
}

/// The credentials in decoded `Basic` data: the user name is what stands
/// before the first colon, the password what stands after it.
pub open spec fn holds_credentials(decoded: Seq<u8>, username: Seq<char>, password: Seq<char>) -> bool {
    &&& valid_utf8(decoded)
    &&& !username.contains(':')
    &&& decode_utf8(decoded) == username.push(':') + password
}

/// Whether decoded `Basic` data yields credentials, and if not, why.
pub open spec fn decoded_fault(decoded: Option<Seq<u8>>) -> Option<BasicAuthError> {
    match decoded {
        None => Some(BasicAuthError::NotBase64),
        Some(bytes) => if !valid_utf8(bytes) {
            Some(BasicAuthError::NotUtf8)
        } else if !decode_utf8(bytes).contains(':') {
            Some(BasicAuthError::MissingPassword)
        } else {
            None
        },
    }
}

/// Reads credentials from decoded `Basic` data.
pub fn credentials_from_decoded(decoded: Option<Vec<u8>>) -> (result: Result<
    Credentials,
    BasicAuthError,
>)
    ensures
        match result {
            Ok(credentials) => {
                &&& decoded_fault(bytes_view(decoded)) is None
                &&& holds_credentials(decoded->0@, credentials.username@, credentials.password@)
            },
            Err(error) => decoded_fault(bytes_view(decoded)) == Some(error),
        },
{
    let bytes = match decoded {
        None => {
            return Err(BasicAuthError::NotBase64);
        },
        Some(bytes) => bytes,
    };
    let text = match string_from_utf8(bytes) {
        None => {
            return Err(BasicAuthError::NotUtf8);
        },
        Some(text) => text,
    };
    match split_once(text.as_str(), ':') {
        None => Err(BasicAuthError::MissingPassword),
        Some((username, password)) => {
            proof {
                let joined = username@.push(':') + password@;
                assert(joined[username@.len() as int] == ':');
            }
            Ok(Credentials { username, password })
        },
    }
}

/// Why the header yields no `Basic` data to decode.
pub open spec fn header_fault(header: AuthorizationHeader) -> Option<BasicAuthError> {
    match header {
        AuthorizationHeader::Absent => Some(BasicAuthError::MissingHeader),
        AuthorizationHeader::Unreadable => Some(BasicAuthError::NotText),
        AuthorizationHeader::Text(value) => if !starts_with(value@, "Basic "@) {
            Some(BasicAuthError::NotBasic)
        } else {
            None
        },
    }
}

/// The base64 text of a `Basic` header: what follows `Basic `.
pub open spec fn basic_segment(header: AuthorizationHeader) -> Seq<char> {
    header->Text_0@.skip("Basic "@.len() as int)
}

/// Reads the credentials of HTTP `Basic` authentication from the
/// `Authorization` header: `Basic `, then the base64 of user name, colon,
/// password.
pub fn basic_authentication(header: AuthorizationHeader) -> (result: Result<
    Credentials,
    BasicAuthError,
>)
    ensures
        match result {
            Ok(credentials) => {
                &&& header_fault(header) is None
                &&& base64_decoded(basic_segment(header)) matches Some(decoded)
                &&& decoded_fault(Some(decoded)) is None
                &&& holds_credentials(decoded, credentials.username@, credentials.password@)
            },
            Err(error) => {
                ||| header_fault(header) == Some(error)
                ||| header_fault(header) is None && decoded_fault(
                    base64_decoded(basic_segment(header)),
                ) == Some(error)
            },
        },
{
    let value = match &header {
        AuthorizationHeader::Absent => {
            return Err(BasicAuthError::MissingHeader);
        },
        AuthorizationHeader::Unreadable => {
            return Err(BasicAuthError::NotText);
        },
        AuthorizationHeader::Text(value) => value,
    };
    let encoded_segment = match strip_prefix(value.as_str(), "Basic ") {
        None => {
            return Err(BasicAuthError::NotBasic);
        },
        Some(rest) => rest,
    };
    credentials_from_decoded(decode_base64(encoded_segment.as_str()))
}

/// A parsed address, or the message, as plain text.
pub open spec fn parsed_view(parsed: Result<SubscriberEmail, String>) -> Result<Seq<char>, Seq<char>> {
    match parsed {
        Ok(address) => Ok(address@),
        Err(message) => Err(message@),
    }
}

/// What parsing a stored address gives: the address, or a message.
pub open spec fn parse_of(address: Seq<char>) -> Result<Seq<char>, Seq<char>> {
    if email_is_valid(address) {
        Ok(address)
    } else {
        Err(invalid_email_message(address))
    }
}

/// Parses the addresses of the confirmed subscribers as they are stored,
/// each on its own: an invalid one is reported in its place and does not
/// stop the others.
pub fn get_confirmed_subscribers(rows: Vec<String>) -> (subscribers: Vec<
    Result<SubscriberEmail, String>,
>)
    ensures
        subscribers.len() == rows.len(),
        forall|i: int|
            0 <= i < rows.len() ==> parsed_view(#[trigger] subscribers[i]) == parse_of(rows[i]@),
{
    let mut subscribers: Vec<Result<SubscriberEmail, String>> = Vec::new();
    let mut i: usize = 0;
    while i < rows.len()
        invariant
            i <= rows.len(),
            subscribers.len() == i,
            forall|j: int|
                0 <= j < i ==> parsed_view(#[trigger] subscribers[j]) == parse_of(rows[j]@),
        decreases rows.len() - i,
    {
        subscribers.push(SubscriberEmail::parse(rows[i].clone()));
        i += 1;
    }
    subscribers
}

/// What is reported when the transport fails for `recipient`.
pub fn delivery_failure_message(recipient: &SubscriberEmail) -> (message: String)
    ensures
        message@ == "Unable to send email to "@ + recipient@,
{
    "Unable to send email to ".to_owned().concat(recipient.as_ref())
}

} // verus!

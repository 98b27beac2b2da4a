use crate::authentication::{AuthError, AuthErrorView, Credentials, UserId};
use crate::http::{see_other, see_other_view, Response};
use crate::text::{append_lower_hex, lower_hex};
use hmac::{Hmac, Mac};
use vstd::prelude::*;
use vstd::utf8::encode_utf8;

verus! {

/// What a user submits to log in.
#[derive(Debug, Clone)]
pub struct FormData {
    pub username: String,
    pub password: String,
}

impl FormData {
    /// The credentials that the form holds.
    pub fn credentials(self) -> (credentials: Credentials)
        ensures
            credentials.username@ == self.username@,
            credentials.password@ == self.password@,
    {
        Credentials { username: self.username, password: self.password }
    }
}

/// Why logging in failed, with what is known of the cause.
#[derive(Debug, Clone, PartialEq, Eq)]
pub enum LoginError {
    AuthError(String),
    UnexpectedError(String),
}

/// A login error as plain values.
pub enum LoginErrorView {
    AuthError(Seq<char>),
    UnexpectedError(Seq<char>),
}

impl View for LoginError {
    type V = LoginErrorView;

    open spec fn view(&self) -> LoginErrorView {
        match self {
            LoginError::AuthError(cause) => LoginErrorView::AuthError(cause@),
            LoginError::UnexpectedError(cause) => LoginErrorView::UnexpectedError(cause@),
        }
    }
}

impl LoginErrorView {
    /// What the user is told.
    pub open spec fn text(self) -> Seq<char> {
        match self {
            LoginErrorView::AuthError(_) => "Authentication failed"@,
            LoginErrorView::UnexpectedError(_) => "Something went wrong"@,
        }
    }
}

/// What an authentication error is for the login page: wrong credentials
/// stay what they are, anything else is unexpected. The cause is the
/// authentication error in its own words.
pub open spec fn login_error_of(error: AuthErrorView) -> LoginErrorView {
    match error {
        AuthErrorView::InvalidCredentialsError(_) => LoginErrorView::AuthError(
            "Invalid Credentials"@,
        ),
        AuthErrorView::UnExceptedError(cause) => LoginErrorView::UnexpectedError(cause),
    }
}

impl LoginError {
    /// What the user is told.
    pub fn message(&self) -> (message: String)
        ensures
            message@ == self@.text(),
    {
        match self {
            LoginError::AuthError(_) => "Authentication failed".to_owned(),
            LoginError::UnexpectedError(_) => "Something went wrong".to_owned(),
        }
    }

    /// What an authentication error is for the login page.
    pub fn from_auth_error(error: AuthError) -> (login_error: LoginError)
        ensures
            login_error@ == login_error_of(error@),
    {
        let cause = error.message();
        match error {
            AuthError::InvalidCredentialsError(_) => LoginError::AuthError(cause),
            AuthError::UnExceptedError(_) => LoginError::UnexpectedError(cause),
        }
    }
}

/// A refusal: the error, the notice to flash, and the redirect.
#[derive(Debug, PartialEq, Eq)]
pub struct Refusal {
    pub error: LoginError,
    pub flash: String,
    pub response: Response,
}

/// How a login attempt ends.
#[derive(Debug, PartialEq, Eq)]
pub enum LoginOutcome {
    /// The user is known: the session is to hold this id, and the client is
    /// sent to the dashboard.
    LoggedIn(UserId, Response),
    /// The credentials were not accepted: the client is sent back to the
    /// login page with a notice.
    Refused(Refusal),
}

/// Decides a login attempt from what validating the credentials gave.
pub fn login(validated: Result<UserId, AuthError>) -> (outcome: LoginOutcome)
    ensures
        match validated {
            Ok(user_id) => outcome matches LoginOutcome::LoggedIn(id, response) && id == user_id
                && response@ == see_other_view("/admin/dashboard"@),
            Err(error) => {
                &&& outcome matches LoginOutcome::Refused(refusal)
                &&& refusal.error@ == login_error_of(error@)
                &&& refusal.flash@ == login_error_of(error@).text()
                &&& refusal.response@ == see_other_view("/login"@)
            },
        },
{
    match validated {
        Ok(user_id) => LoginOutcome::LoggedIn(user_id, see_other("/admin/dashboard")),
        Err(error) => {
            let error = LoginError::from_auth_error(error);
            let flash = error.message();
            LoginOutcome::Refused(Refusal { error, flash, response: see_other("/login") })
        },
    }
}

/// The refusal for an error that struck after the credentials were
/// accepted: a notice, and a redirect to the home page.
pub fn login_redirect(e: LoginError) -> (refusal: Refusal)
    ensures
        refusal.error@ == e@,
        refusal.flash@ == e@.text(),
        refusal.response@ == see_other_view("/"@),
{
    let flash = e.message();
    Refusal { error: e, flash, response: see_other("/") }
}

/// The bytes that stay as they are in a percent-encoded text: ASCII letters
/// and digits, and `-`, `.`, `_`, `~`.
pub open spec fn is_unreserved(byte: u8) -> bool {
    (0x30 <= byte <= 0x39) || (0x41 <= byte <= 0x5a) || (0x61 <= byte <= 0x7a) || byte == 0x2d
        || byte == 0x2e || byte == 0x5f || byte == 0x7e
}

/// The character of a hexadecimal digit, in upper case.
pub open spec fn upper_hex_char(digit: nat) -> char
    recommends
        digit < 16,
{
    if digit < 10 {
        (48 + digit) as u8 as char
    } else {
        (55 + digit) as u8 as char
    }
}

/// The percent-encoding of `bytes`: an unreserved byte stands for itself,
/// any other becomes `%` and its two hexadecimal digits in upper case.
pub open spec fn percent_encoded(bytes: Seq<u8>) -> Seq<char>
    decreases bytes.len(),
{
    if bytes.len() == 0 {
        Seq::empty()
    } else {
        let byte = bytes.last();
        let earlier = percent_encoded(bytes.drop_last());
        if is_unreserved(byte) {
            earlier.push(byte as char)
        } else {
            earlier.push('%').push(upper_hex_char((byte / 16) as nat)).push(
                upper_hex_char((byte % 16) as nat),
            )
        }
    }
}

/// Calls `urlencoding::encode`. Trusted: the result is the percent-encoding
/// of the text's UTF-8 bytes, each byte on its own.
#[verifier::external_body]
fn url_encode(text: &str) -> (encoded: String)
    ensures
        encoded@ == percent_encoded(encode_utf8(text@)),
{
    urlencoding::encode(text).into_owned()
}

/// The HMAC of `message` under `key` with SHA-256 as its hash.
pub uninterp spec fn hmac_sha256(key: Seq<u8>, message: Seq<u8>) -> Seq<u8>;

/// Calls `Hmac::<Sha256>::new_from_slice`, `update` and `finalize`.
/// Trusted: the tag depends on key and message alone.
#[verifier::external_body]
fn hmac_sha256_tag(key: &[u8], message: &[u8]) -> (tag: Vec<u8>)
    ensures
        tag@ == hmac_sha256(key@, message@),
{
    let mut mac = Hmac::<sha2::Sha256>::new_from_slice(key).expect("any key length is accepted");
    mac.update(message);
    mac.finalize().into_bytes().to_vec()
}

/// The query that carries an error message: `error=` and the message,
/// percent-encoded.
pub open spec fn error_query(message: Seq<char>) -> Seq<char> {
    "error="@ + percent_encoded(encode_utf8(message))
}

/// A link with a query and the query's tag in hexadecimal.
pub open spec fn tagged_link(url: Seq<char>, query: Seq<char>, tag: Seq<u8>) -> Seq<char> {
    url + "?"@ + query + "&tag="@ + lower_hex(tag)
}

/// The query that carries an error message.
pub fn query_string(message: &str) -> (query: String)
    ensures
        query@ == error_query(message@),
{
    "error=".to_owned().concat(url_encode(message).as_str())
}

/// The link to `url` with `query` and its tag.
pub fn link_with_tag(url: &str, query: &str, tag: &Vec<u8>) -> (link: String)
    ensures
        link@ == tagged_link(url@, query@, tag@),
{
    let mut link = url.to_owned();
    link.append("?");
    link.append(query);
    link.append("&tag=");
    append_lower_hex(&mut link, tag);
    link
}

/// The link to `url` that carries `message` as an error, signed with
/// `secret` so that the page can tell it was not made up by someone else.
pub fn get_encoded_string(url: &str, message: String, secret: &String) -> (link: String)
    ensures
        link@ == tagged_link(
            url@,
            error_query(message@),
            hmac_sha256(encode_utf8(secret@), encode_utf8(error_query(message@))),
        ),
{
    let query = query_string(message.as_str());
    let tag = hmac_sha256_tag(secret.as_str().as_bytes(), query.as_str().as_bytes());
    link_with_tag(url, query.as_str(), &tag)
}

} // verus!

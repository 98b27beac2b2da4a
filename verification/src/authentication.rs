use argon2::{Algorithm, Argon2, Params, PasswordHash, PasswordHasher, PasswordVerifier, Version};
use vstd::prelude::*;

verus! {

/// The identifier of an authenticated user.
#[derive(Debug, Clone, Copy, PartialEq, Eq, Structural)]
pub struct UserId(pub u128);

/// Why credentials were not accepted, with what is known of the cause.
#[derive(Debug, Clone, PartialEq, Eq)]
pub enum AuthError {
    /// The credentials are wrong.
    InvalidCredentialsError(String),
    /// The credentials could not be checked.
    UnExceptedError(String),
}

/// An authentication error as plain values.
pub enum AuthErrorView {
    InvalidCredentialsError(Seq<char>),
    UnExceptedError(Seq<char>),
}

impl View for AuthError {
    type V = AuthErrorView;

    open spec fn view(&self) -> AuthErrorView {
        match self {
            AuthError::InvalidCredentialsError(cause) => AuthErrorView::InvalidCredentialsError(
                cause@,
            ),
            AuthError::UnExceptedError(cause) => AuthErrorView::UnExceptedError(cause@),
        }
    }
}

impl AuthError {
    /// What the error says of itself: wrong credentials are named as such,
    /// anything else speaks through its cause.
    pub fn message(&self) -> (message: String)
        ensures
            message@ == (match self@ {
                AuthErrorView::InvalidCredentialsError(_) => "Invalid Credentials"@,
                AuthErrorView::UnExceptedError(cause) => cause,
            }),
    {
        match self {
            AuthError::InvalidCredentialsError(_) => "Invalid Credentials".to_owned(),
            AuthError::UnExceptedError(cause) => cause.clone(),
        }
    }
}

/// A user name and the password offered with it.
#[derive(Debug, Clone)]
pub struct Credentials {
    pub username: String,
    pub password: String,
}

/// What came of checking a password against a stored hash.
#[derive(Debug, Clone, Copy, PartialEq, Eq, Structural)]
pub enum PasswordCheck {
    /// The stored text is no hash in PHC string format.
    Unparsable,
    /// The password does not hash to the stored hash.
    Mismatch,
    /// The password hashes to the stored hash.
    Match,
}

/// Memory that hashing a new password takes, in KiB.
pub const HASH_MEMORY_KIB: u32 = 15000;

/// Passes over the memory when hashing a new password.
pub const HASH_ITERATIONS: u32 = 2;

/// Lanes when hashing a new password.
pub const HASH_LANES: u32 = 1;

/// The greatest number of lanes that Argon2 takes.
pub const MAX_LANES: u32 = 0xFF_FFFF;

/// One parameter of a stored hash: its name and, where its value is written
/// as a decimal number, that number.
#[derive(Debug, Clone, PartialEq, Eq)]
pub struct StoredParameter {
    pub name: String,
    pub decimal: Option<u32>,
}

impl View for StoredParameter {
    type V = (Seq<char>, Option<u32>);

    open spec fn view(&self) -> (Seq<char>, Option<u32>) {
        (self.name@, self.decimal)
    }
}

/// Stored parameters as plain values.
pub open spec fn parameters_view(list: Seq<StoredParameter>) -> Seq<(Seq<char>, Option<u32>)> {
    list.map_values(|parameter: StoredParameter| parameter@)
}

/// Whether `password_hash::PasswordHash::new` accepts `expected` as a hash in
/// PHC string format.
pub uninterp spec fn phc_parses(expected: Seq<char>) -> bool;

/// Whether `Argon2::verify_password`, with default settings, finds that
/// `candidate` hashes to the parsed hash `expected`.
pub uninterp spec fn argon2_accepts(expected: Seq<char>, candidate: Seq<char>) -> bool;

/// The parameters that the PHC string `expected` holds, in the order in
/// which it holds them, as `PasswordHash::new` parses them and
/// `ParamsString::iter` yields them, each with its name and with its value
/// as `Value::decimal` reads it; `None` where the text does not parse.
pub uninterp spec fn phc_parameters(expected: Seq<char>) -> Option<Seq<(Seq<char>, Option<u32>)>>;

/// Calls `PasswordHash::new` on the stored text and, where that parses,
/// walks its parameters with `ParamsString::iter`, reading each value with
/// `Value::decimal`. Trusted: the list depends on the text alone, and there
/// is one exactly when the text parses.
#[verifier::external_body]
fn stored_parameters(expected: &str) -> (parameters: Option<Vec<StoredParameter>>)
    ensures
        parameters is Some <==> phc_parameters(expected@) is Some,
        parameters matches Some(list) ==> phc_parameters(expected@) == Some(
            parameters_view(list@),
        ),
        parameters is Some <==> phc_parses(expected@),
{
    let hash = PasswordHash::new(expected).ok()?;
    Some(
        hash.params.iter().map(
            |(name, value)|
                StoredParameter { name: name.as_str().to_owned(), decimal: value.decimal().ok() },
        ).collect(),
    )
}

/// No parameter named `p`, the number of lanes, is greater than Argon2 takes.
pub open spec fn lanes_bounded(parameters: Seq<(Seq<char>, Option<u32>)>) -> bool {
    forall|i: int|
        0 <= i < parameters.len() && (#[trigger] parameters[i]).0 == "p"@ ==> match parameters[i].1 {
            Some(lanes) => lanes <= MAX_LANES,
            None => true,
        }
}

/// The stored text, where it parses, asks for no more lanes than Argon2 takes.
pub open spec fn stored_lanes_bounded(expected: Seq<char>) -> bool {
    match phc_parameters(expected) {
        Some(parameters) => lanes_bounded(parameters),
        None => true,
    }
}

/// Whether no parameter named `p` is greater than Argon2 takes.
pub fn lanes_in_range(parameters: &Vec<StoredParameter>) -> (bounded: bool)
    ensures
        bounded == lanes_bounded(parameters_view(parameters@)),
{
    let lanes_name = "p".to_owned();
    let mut i: usize = 0;
    while i < parameters.len()
        invariant
            i <= parameters.len(),
            lanes_name@ == "p"@,
            forall|j: int|
                0 <= j < i && (#[trigger] parameters_view(parameters@)[j]).0 == "p"@
                    ==> match parameters_view(parameters@)[j].1 {
                    Some(lanes) => lanes <= MAX_LANES,
                    None => true,
                },
        decreases parameters.len() - i,
    {
        if parameters[i].name == lanes_name {
            match parameters[i].decimal {
                Some(lanes) => {
                    if lanes > MAX_LANES {
                        assert(parameters_view(parameters@)[i as int].0 == "p"@);
                        return false;
                    }
                },
                None => {},
            }
        }
        i += 1;
    }
    true
}

/// Calls `PasswordHash::new` on the stored text and, where that parses,
/// `Argon2::default().verify_password` with the candidate's bytes. Trusted:
/// both answers depend on the two texts alone, and the empty text does not
/// parse. Left out are stored texts that ask for more lanes than Argon2
/// takes: on such a number the crate's own range check can overflow.
#[verifier::external_body]
fn check_password(expected: &str, candidate: &str) -> (outcome: PasswordCheck)
    requires
        stored_lanes_bounded(expected@),
    ensures
        outcome is Unparsable <==> !phc_parses(expected@),
        outcome is Match <==> (phc_parses(expected@) && argon2_accepts(expected@, candidate@)),
        expected@.len() == 0 ==> outcome is Unparsable,
{
    match PasswordHash::new(expected) {
        Err(_) => PasswordCheck::Unparsable,
        Ok(hash) => match Argon2::default().verify_password(candidate.as_bytes(), &hash) {
            Ok(()) => PasswordCheck::Match,
            Err(_) => PasswordCheck::Mismatch,
        },
    }
}

/// The Argon2id hash of `password` with `salt`, version 0x13 and the given
/// parameters, as a PHC string, as the crate `argon2` computes it; `None`
/// where the crate refuses the salt or the parameters.
pub uninterp spec fn argon2id_phc(
    password: Seq<char>,
    salt: Seq<char>,
    memory_kib: u32,
    iterations: u32,
    lanes: u32,
) -> Option<Seq<char>>;

/// The length of a salt drawn by `fresh_salt`: 16 bytes in base64 without padding.
pub const SALT_LENGTH: usize = 22;

/// A character of base64: an ASCII letter or digit, `+` or `/`.
pub open spec fn is_base64_char(c: char) -> bool {
    ('A' <= c <= 'Z') || ('a' <= c <= 'z') || ('0' <= c <= '9') || c == '+' || c == '/'
}

/// A text that a drawn salt can be: 22 characters of base64.
pub open spec fn is_drawn_salt(salt: Seq<char>) -> bool {
    salt.len() == SALT_LENGTH && forall|i: int| 0 <= i < salt.len() ==> is_base64_char(#[trigger] salt[i])
}

/// Calls `SaltString::generate` with `rand::thread_rng` and hands the salt
/// out as text. Trusted: the salt is random, and whichever it is, it is 16
/// bytes written in base64 without padding.
#[verifier::external_body]
fn fresh_salt() -> (salt: String)
    ensures
        is_drawn_salt(salt@),
{
    argon2::password_hash::SaltString::generate(&mut rand::thread_rng()).as_str().to_owned()
}

/// Calls `Argon2::hash_password` on a hasher made by `Argon2::new` for
/// Argon2id, version 0x13, with parameters made by `Params::new` and the salt
/// read by `SaltString::from_b64`. Trusted: the hash depends on password,
/// salt and parameters alone. Left out are more lanes than Argon2 takes: on
/// such a number the range check of `Params::new` can overflow.
#[verifier::external_body]
fn argon2id_hash(password: &str, salt: &str, memory_kib: u32, iterations: u32, lanes: u32) -> (hash:
    Option<String>)
    requires
        lanes <= MAX_LANES,
    ensures
        hash is Some <==> argon2id_phc(password@, salt@, memory_kib, iterations, lanes) is Some,
        hash matches Some(text) ==> argon2id_phc(password@, salt@, memory_kib, iterations, lanes)
            == Some(text@),
{
    let salt = argon2::password_hash::SaltString::from_b64(salt).ok()?;
    let params = Params::new(memory_kib, iterations, lanes, None).ok()?;
    Argon2::new(Algorithm::Argon2id, Version::V0x13, params)
        .hash_password(password.as_bytes(), &salt)
        .ok()
        .map(|hash| hash.to_string())
}

/// The verdict on a password check: a match passes, a mismatch means wrong
/// credentials, and a stored text that is no hash is a failure of the system.
pub open spec fn verdict(check: PasswordCheck) -> Result<(), AuthErrorView> {
    match check {
        PasswordCheck::Match => Ok(()),
        PasswordCheck::Mismatch => Err(AuthErrorView::InvalidCredentialsError("Invalid password"@)),
        PasswordCheck::Unparsable => Err(
            AuthErrorView::UnExceptedError("Unable to parse password string"@),
        ),
    }
}

/// What checking `candidate` against the stored text `expected` comes to.
/// A stored text that asks for more lanes than Argon2 takes matches no
/// password.
pub open spec fn password_check(expected: Seq<char>, candidate: Seq<char>) -> PasswordCheck {
    if !phc_parses(expected) {
        PasswordCheck::Unparsable
    } else if !stored_lanes_bounded(expected) {
        PasswordCheck::Mismatch
    } else if argon2_accepts(expected, candidate) {
        PasswordCheck::Match
    } else {
        PasswordCheck::Mismatch
    }
}

/// A result with its error as plain values.
pub open spec fn auth_view<T>(result: Result<T, AuthError>) -> Result<T, AuthErrorView> {
    match result {
        Ok(value) => Ok(value),
        Err(error) => Err(error@),
    }
}

/// The verdict on a password check.
pub fn password_verdict(check: PasswordCheck) -> (result: Result<(), AuthError>)
    ensures
        auth_view(result) == verdict(check),
{
    match check {
        PasswordCheck::Match => Ok(()),
        PasswordCheck::Mismatch => Err(
            AuthError::InvalidCredentialsError("Invalid password".to_owned()),
        ),
        PasswordCheck::Unparsable => Err(
            AuthError::UnExceptedError("Unable to parse password string".to_owned()),
        ),
    }
}

/// Checks the password a user offers against the hash stored for the user.
pub fn verify_password(expected_password: String, password_candidate: String) -> (result: Result<
    (),
    AuthError,
>)
    ensures
        auth_view(result) == verdict(password_check(expected_password@, password_candidate@)),
        expected_password@.len() == 0 ==> result is Err,
{
    let bounded = match stored_parameters(expected_password.as_str()) {
        Some(parameters) => lanes_in_range(&parameters),
        None => true,
    };
    if bounded {
        password_verdict(check_password(expected_password.as_str(), password_candidate.as_str()))
    } else {
        password_verdict(PasswordCheck::Mismatch)
    }
}

/// What validating credentials comes to, given what is stored for the user
/// name: an unknown name means wrong credentials, a known one is decided by
/// its password.
pub open spec fn validation(
    candidate: Seq<char>,
    stored: Option<(UserId, Seq<char>)>,
) -> Result<UserId, AuthErrorView> {
    match stored {
        None => Err(AuthErrorView::InvalidCredentialsError("Incorrect username"@)),
        Some((user_id, expected)) => match verdict(password_check(expected, candidate)) {
            Ok(_) => Ok(user_id),
            Err(error) => Err(error),
        },
    }
}

/// What is stored for a user name, as plain values.
pub open spec fn stored_view(stored: Option<(UserId, String)>) -> Option<(UserId, Seq<char>)> {
    match stored {
        Some((user_id, expected)) => Some((user_id, expected@)),
        None => None,
    }
}

/// Validates credentials against what is stored under their user name:
/// the user's id and password hash, or nothing where the name is unknown.
pub fn validate_credentials(credentials: Credentials, stored: Option<(UserId, String)>) -> (result:
    Result<UserId, AuthError>)
    ensures
        auth_view(result) == validation(credentials.password@, stored_view(stored)),
{
    match stored {
        None => Err(AuthError::InvalidCredentialsError("Incorrect username".to_owned())),
        Some((user_id, expected)) => match verify_password(expected, credentials.password) {
            Ok(_) => Ok(user_id),
            Err(error) => Err(error),
        },
    }
}

/// A computed hash as plain text.
pub open spec fn hash_view(hash: Option<String>) -> Option<Seq<char>> {
    match hash {
        Some(text) => Some(text@),
        None => None,
    }
}

/// A computed hash as the result of hashing: a missing hash is an
/// unexpected failure.
pub open spec fn hashing_result(hash: Option<Seq<char>>) -> Result<Seq<char>, AuthErrorView> {
    match hash {
        Some(text) => Ok(text),
        None => Err(AuthErrorView::UnExceptedError("Failed to hash password"@)),
    }
}

/// The result of hashing as plain values.
pub open spec fn hashed_view(result: Result<String, AuthError>) -> Result<Seq<char>, AuthErrorView> {
    match result {
        Ok(text) => Ok(text@),
        Err(error) => Err(error@),
    }
}

/// A computed hash as the result of hashing.
pub fn password_hash_from(hash: Option<String>) -> (result: Result<String, AuthError>)
    ensures
        hashed_view(result) == hashing_result(hash_view(hash)),
{
    match hash {
        Some(text) => Ok(text),
        None => Err(AuthError::UnExceptedError("Failed to hash password".to_owned())),
    }
}

/// Hashes a password with a given salt, for storing: Argon2id with 15000 KiB
/// of memory, two passes and one lane.
pub fn hash_password_with_salt(password: &str, salt: &str) -> (result: Result<String, AuthError>)
    ensures
        hashed_view(result) == hashing_result(
            argon2id_phc(password@, salt@, HASH_MEMORY_KIB, HASH_ITERATIONS, HASH_LANES),
        ),
{
    password_hash_from(argon2id_hash(password, salt, HASH_MEMORY_KIB, HASH_ITERATIONS, HASH_LANES))
}

/// Hashes a new password for storing, with a salt drawn at random.
pub fn compute_password_hash(password: String) -> (result: Result<String, AuthError>)
    ensures
        exists|salt: Seq<char>|
            hashed_view(result) == hashing_result(
                #[trigger] argon2id_phc(
                    password@,
                    salt,
                    HASH_MEMORY_KIB,
                    HASH_ITERATIONS,
                    HASH_LANES,
                ),
            ) && is_drawn_salt(salt),
{
    let salt = fresh_salt();
    hash_password_with_salt(password.as_str(), salt.as_str())
}

/// What an anonymous request to a protected page is answered with, and what
/// lets a known user through.
#[derive(Debug, PartialEq, Eq)]
pub enum Admission {
    /// The session belongs to this user: the request goes on.
    Admit(UserId),
    /// Nobody is logged in: the client is sent to the login page.
    Redirect(crate::http::Response),
}

/// Lets a request through where its session holds a user, and sends the
/// client to the login page otherwise.
pub fn reject_anonymous_users(session_user: Option<UserId>) -> (admission: Admission)
    ensures
        match session_user {
            Some(user_id) => admission == Admission::Admit(user_id),
            None => admission matches Admission::Redirect(response) && response@
                == crate::http::see_other_view("/login"@),
        },
{
    match session_user {
        Some(user_id) => Admission::Admit(user_id),
        None => Admission::Redirect(crate::http::see_other("/login")),
    }
}

} // verus!

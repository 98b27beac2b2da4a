use vstd::prelude::*;

verus! {

/// Whether `validator::validate_email` accepts `address`: the HTML5 rules for
/// an email address, with internationalised domains and bracketed IP literals.
pub uninterp spec fn email_is_valid(address: Seq<char>) -> bool;

/// Calls `validator::validate_email`. Trusted: the answer depends on the text
/// alone, and the function refuses the empty text and any text without `@`
/// before it looks further.
#[verifier::external_body]
fn validate_email(address: &str) -> (valid: bool)
    ensures
        valid == email_is_valid(address@),
        valid ==> (address@.len() > 0 && address@.contains('@')),
{
    validator::validate_email(address)
}

/// What is reported for an address that is refused.
pub open spec fn invalid_email_message(address: Seq<char>) -> Seq<char> {
    address + " is not a valid email"@
}

/// The email address of a subscriber: a text that passed `parse`.
#[derive(Debug)]
pub struct SubscriberEmail(String);

impl View for SubscriberEmail {
    type V = Seq<char>;

    closed spec fn view(&self) -> Seq<char> {
        self.0@
    }
}

impl SubscriberEmail {
    #[verifier::type_invariant]
    closed spec fn valid(self) -> bool {
        email_is_valid(self.0@)
    }

    /// Accepts `email` unchanged when it is a valid address, and otherwise
    /// reports it in a message.
    pub fn parse(email: String) -> (parsed: Result<SubscriberEmail, String>)
        ensures
            match parsed {
                Ok(address) => email_is_valid(email@) && address@ == email@,
                Err(message) => !email_is_valid(email@) && message@ == invalid_email_message(
                    email@,
                ),
            },
            email@.len() == 0 || !email@.contains('@') ==> parsed is Err,
    {
        if validate_email(email.as_str()) {
            Ok(SubscriberEmail(email))
        } else {
            Err(email.concat(" is not a valid email"))
        }
    }

    /// The address as text. Every address in existence is valid.
    pub fn as_ref(&self) -> (text: &str)
        ensures
            text@ == self@,
            email_is_valid(text@),
    {
        proof {
            use_type_invariant(self);
        }
        self.0.as_str()
    }
}

} // verus!

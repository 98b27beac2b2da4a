use crate::domains::subscriber_email::SubscriberEmail;
use vstd::prelude::*;

verus! {

/// The body of a request to the email service.
#[derive(Debug, Clone, PartialEq, Eq)]
pub struct SendEmailRequest {
    pub from: String,
    pub to: String,
    pub subject: String,
    pub html_body: String,
    pub text_body: String,
}

/// The name of the header that carries the token of the email service.
pub const TOKEN_HEADER: &'static str = "X-Postmark-Server-Token";

/// What is needed to talk to the email service.
#[derive(Debug)]
pub struct EmailClient {
    base_url: String,
    sender_email: SubscriberEmail,
    authorization_token: String,
}

impl EmailClient {
    /// The address of the email service.
    pub closed spec fn base_url(&self) -> Seq<char> {
        self.base_url@
    }

    /// The address that messages are sent from.
    pub closed spec fn sender(&self) -> Seq<char> {
        self.sender_email@
    }

    /// The token that authorizes the client with the email service.
    pub closed spec fn token(&self) -> Seq<char> {
        self.authorization_token@
    }

    /// A client for the email service at `base_url`.
    pub fn new(base_url: String, sender_email: SubscriberEmail, authorization_token: String) -> (client:
        EmailClient)
        ensures
            client.base_url() == base_url@,
            client.sender() == sender_email@,
            client.token() == authorization_token@,
    {
        EmailClient { base_url, sender_email, authorization_token }
    }

    /// The address that messages are posted to.
    pub fn url(&self) -> (url: String)
        ensures
            url@ == self.base_url() + "/email"@,
    {
        self.base_url.clone().concat("/email")
    }

    /// The token to put into the header `X-Postmark-Server-Token`.
    pub fn authorization_token(&self) -> (token: &str)
        ensures
            token@ == self.token(),
    {
        self.authorization_token.as_str()
    }

    /// The body of the request that sends one message.
    pub fn request(
        &self,
        recipient: &SubscriberEmail,
        subject: &str,
        html_content: &str,
        text_content: &str,
    ) -> (body: SendEmailRequest)
        ensures
            body.to@ == recipient@,
            body.from@ == self.sender(),
            body.subject@ == subject@,
            body.html_body@ == html_content@,
            body.text_body@ == text_content@,
    {
        SendEmailRequest {
            to: recipient.as_ref().to_owned(),
            from: self.sender_email.as_ref().to_owned(),
            subject: subject.to_owned(),
            html_body: html_content.to_owned(),
            text_body: text_content.to_owned(),
        }
    }
}

} // verus!

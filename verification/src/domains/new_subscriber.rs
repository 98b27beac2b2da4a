use crate::domains::subscriber_email::SubscriberEmail;
use crate::domains::subscriber_name::SubscriberName;
use vstd::prelude::*;

verus! {

/// A person who asked to subscribe, with both fields validated.
#[derive(Debug)]
pub struct NewSubscriber {
    pub email: SubscriberEmail,
    pub name: SubscriberName,
}

} // verus!

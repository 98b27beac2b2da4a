use crate::http::{bare_view, Response, INTERNAL_SERVER_ERROR, OK};
use vstd::prelude::*;

verus! {

/// The query of a confirmation link.
#[derive(Debug, Clone)]
pub struct Parameters {
    pub subscription_token: String,
}

/// What looking up a token gave.
#[derive(Debug, Clone, Copy, PartialEq, Eq, Structural)]
pub enum TokenLookup {
    /// The lookup itself failed.
    Failed,
    /// No subscription holds the token.
    Unknown,
    /// The subscription with this id holds the token.
    Found(u128),
}

/// What follows the lookup of a token: the subscription to confirm, or the
/// answer to give at once.
pub fn get_subscription_id_from_token(lookup: TokenLookup) -> (result: Result<u128, Response>)
    ensures
        match lookup {
            TokenLookup::Found(id) => result == Ok::<u128, Response>(id),
            _ => result matches Err(response) && response@ == bare_view(INTERNAL_SERVER_ERROR),
        },
{
    match lookup {
        TokenLookup::Found(id) => Ok(id),
        _ => Err(Response::new(INTERNAL_SERVER_ERROR)),
    }
}

/// The answer to a confirmation, by whether the subscription could be
/// marked as confirmed: 200 if so, 500 if not.
pub fn confirm(confirmed: bool) -> (response: Response)
    ensures
        response@ == bare_view(if confirmed { OK } else { INTERNAL_SERVER_ERROR }),
{
    if confirmed {
        Response::new(OK)
    } else {
        Response::new(INTERNAL_SERVER_ERROR)
    }
}

} // verus!

use crate::authentication::UserId;
use crate::http::{see_other, see_other_view, Response};
use vstd::prelude::*;

verus! {

/// What logging out comes to.
#[derive(Debug, PartialEq, Eq)]
pub struct LogOut {
    /// Whether there is a session to end.
    pub end_session: bool,
    /// The notice to flash, if any.
    pub flash: Option<String>,
    /// The answer: always the redirect to the login page.
    pub response: Response,
}

/// Logs a user out: a session that holds a user is ended with a notice; on
/// one that holds none nothing is done. Either way the client is sent to
/// the login page.
pub fn log_out(session_user: Option<UserId>) -> (result: LogOut)
    ensures
        result.response@ == see_other_view("/login"@),
        result.end_session == session_user is Some,
        match session_user {
            Some(_) => result.flash matches Some(notice) && notice@
                == "You have successfully logged out."@,
            None => result.flash is None,
        },
{
    match session_user {
        None => LogOut { end_session: false, flash: None, response: see_other("/login") },
        Some(_) => LogOut {
            end_session: true,
            flash: Some("You have successfully logged out.".to_owned()),
            response: see_other("/login"),
        },
    }
}

} // verus!

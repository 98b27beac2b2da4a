use crate::authentication::{AuthError, AuthErrorView, UserId};
use crate::http::{see_other, see_other_view, Response};
use vstd::prelude::*;

verus! {

/// What a user submits to change the password.
#[derive(Debug, Clone)]
pub struct FormData {
    pub current_password: String,
    pub new_password: String,
    pub new_password_check: String,
}

/// A notice to flash and the redirect that shows it.
#[derive(Debug, PartialEq, Eq)]
pub struct Notice {
    pub flash: String,
    pub response: Response,
}

/// What is done once the current password has been checked.
#[derive(Debug, PartialEq, Eq)]
pub enum PasswordStep {
    /// The current password is right: the new one is to be stored.
    Store,
    /// The current password is wrong: the user is told so.
    Refuse(Notice),
    /// The check itself failed: an internal error with this cause.
    Fail(String),
}

/// The notice for two new passwords that differ; `None` where they agree.
pub fn reject_mismatch(form: &FormData) -> (notice: Option<Notice>)
    ensures
        match notice {
            None => form.new_password@ == form.new_password_check@,
            Some(notice) => {
                &&& form.new_password@ != form.new_password_check@
                &&& notice.flash@
                    == "You entered two different new passwords - the field values must match."@
                &&& notice.response@ == see_other_view("/admin/password"@)
            },
        },
{
    if form.new_password != form.new_password_check {
        Some(
            Notice {
                flash: "You entered two different new passwords - the field values must match.".to_owned(),
                response: see_other("/admin/password"),
            },
        )
    } else {
        None
    }
}

/// Decides what follows the check of the current password.
pub fn change_password(validated: Result<UserId, AuthError>) -> (step: PasswordStep)
    ensures
        match validated {
            Ok(_) => step is Store,
            Err(error) => match error@ {
                AuthErrorView::InvalidCredentialsError(_) => {
                    &&& step matches PasswordStep::Refuse(notice)
                    &&& notice.flash@ == "The current password must be valid"@
                    &&& notice.response@ == see_other_view("/admin/password"@)
                },
                AuthErrorView::UnExceptedError(cause) => step matches PasswordStep::Fail(reason)
                    && reason@ == cause,
            },
        },
{
    match validated {
        Ok(_) => PasswordStep::Store,
        Err(AuthError::InvalidCredentialsError(_)) => PasswordStep::Refuse(
            Notice {
                flash: "The current password must be valid".to_owned(),
                response: see_other("/admin/password"),
            },
        ),
        Err(AuthError::UnExceptedError(cause)) => PasswordStep::Fail(cause),
    }
}

/// The notice once the new password is stored.
pub fn password_changed() -> (notice: Notice)
    ensures
        notice.flash@ == "Your password has been changed."@,
        notice.response@ == see_other_view("/admin/password"@),
{
    Notice {
        flash: "Your password has been changed.".to_owned(),
        response: see_other("/admin/password"),
    }
}

} // verus!

use vstd::prelude::*;

verus! {

/// The page up to the user's name.
pub open spec fn page_head() -> Seq<char> {
    "<!DOCTYPE html>\n    <html lang=\"en\">\n    <head>\n        <meta http-equiv=\"content-type\" content=\"text/html; charset=utf-8\">\n        <title>Admin dashboard</title>\n    </head>\n    <body>\n        <p>Welcome "@
}

/// The page after the user's name.
pub open spec fn page_tail() -> Seq<char> {
    "!</p>\n        <p>Available actions:</p>\n    <ol>\n        <li><a href=\"/admin/password\">Change password</a></li>\n        <li>\n        <form name=\"logoutForm\" action=\"/admin/logout\" method=\"post\">\n         <input type=\"submit\" value=\"Logout\">\n        </form>\n        </li>\n    </ol>\n    </body>\n    </html>"@
}

/// The dashboard page of the user with this name.
pub fn admin_dashboard(username: &str) -> (page: String)
    ensures
        page@ == page_head() + username@ + page_tail(),
{
    let mut page =
        "<!DOCTYPE html>\n    <html lang=\"en\">\n    <head>\n        <meta http-equiv=\"content-type\" content=\"text/html; charset=utf-8\">\n        <title>Admin dashboard</title>\n    </head>\n    <body>\n        <p>Welcome ".to_owned();
    page.append(username);
    page.append(
        "!</p>\n        <p>Available actions:</p>\n    <ol>\n        <li><a href=\"/admin/password\">Change password</a></li>\n        <li>\n        <form name=\"logoutForm\" action=\"/admin/logout\" method=\"post\">\n         <input type=\"submit\" value=\"Logout\">\n        </form>\n        </li>\n    </ol>\n    </body>\n    </html>",
    );
    page
}

} // verus!

//! The signed-in user of a request.

use vstd::prelude::*;

use crate::text::{contains_string, strings_view};

verus! {

/// The user a session carries.
#[derive(Clone, Debug, PartialEq)]
pub struct SessionUser {
    pub username: String,
    pub permissions: Vec<String>,
}

/// A session is signed in when it carries a user with a name.
pub open spec fn signed_in(user: Option<&SessionUser>) -> bool {
    match user {
        Some(u) => u.username@.len() > 0,
        None => false,
    }
}

/// The signed-in user, or the refusal every protected request answers with.
pub fn authenticated_user(user: Option<&SessionUser>) -> (r: Result<&SessionUser, &'static str>)
    ensures
        signed_in(user) ==> r == Ok::<&SessionUser, &'static str>(user.unwrap()),
        !signed_in(user) ==> (r matches Err(m) && m@ == "Not authenticated"@),
{
    match user {
        Some(u) => if u.username.as_str().unicode_len() > 0 {
            Ok(u)
        } else {
            Err("Not authenticated")
        },
        None => Err("Not authenticated"),
    }
}

/// Whether the session may open the administration: signed in as an Admin
/// or a Super Admin.
pub fn is_admin_session(user: Option<&SessionUser>) -> (r: bool)
    ensures
        r == (signed_in(user) && (strings_view(user.unwrap().permissions@).contains("SuperAdmin"@)
            || strings_view(user.unwrap().permissions@).contains("Admin"@))),
{
    match user {
        Some(u) => {
            if u.username.as_str().unicode_len() == 0 {
                return false;
            }
            contains_string(&u.permissions, "SuperAdmin") || contains_string(&u.permissions, "Admin")
        },
        None => false,
    }
}

} // verus!

//! The settings page: who may see it, and its sections.

use vstd::prelude::*;

use crate::text::{contains_string, strings_view};

verus! {

/// What the settings page needs to know about the viewer.
#[derive(Clone, Debug, PartialEq)]
pub struct SettingsContext {
    pub is_admin: bool,
    pub is_super_admin: bool,
    pub current_user_token: String,
}

impl SettingsContext {
    /// The viewer's context from the permission names of the session: a
    /// Super Admin counts as an Admin too.
    pub fn from_permissions(perms: &Vec<String>, current_user_token: String) -> (r: SettingsContext)
        ensures
            r.is_super_admin == strings_view(perms@).contains("SuperAdmin"@),
            r.is_admin == (strings_view(perms@).contains("SuperAdmin"@) || strings_view(perms@).contains(
                "Admin"@,
            )),
            r.current_user_token == current_user_token,
    {
        let is_super_admin = contains_string(perms, "SuperAdmin");
        let is_admin = is_super_admin || contains_string(perms, "Admin");
        SettingsContext { is_admin, is_super_admin, current_user_token }
    }

    /// The context assumed until the server answered: no rights.
    pub fn unknown() -> (r: SettingsContext)
        ensures
            !r.is_admin && !r.is_super_admin && r.current_user_token@.len() == 0,
    {
        SettingsContext { is_admin: false, is_super_admin: false, current_user_token: String::new() }
    }
}

/// Where the settings page sends its viewer.
#[derive(Clone, Copy, Debug, PartialEq, Eq)]
pub enum SettingsRedirect {
    /// Not signed in.
    Landing,
    /// Signed in without admin rights.
    Home,
    /// Stay.
    Stay,
}

/// The redirect for the answer of the context request (`None` while it is
/// pending, `Some(None)` when it failed).
pub fn settings_redirect(answer: Option<Option<bool>>) -> (r: SettingsRedirect)
    ensures
        r == match answer {
            Some(None) => SettingsRedirect::Landing,
            Some(Some(false)) => SettingsRedirect::Home,
            _ => SettingsRedirect::Stay,
        },
{
    match answer {
        Some(None) => SettingsRedirect::Landing,
        Some(Some(false)) => SettingsRedirect::Home,
        _ => SettingsRedirect::Stay,
    }
}

/// A section of the settings page.
#[derive(Clone, Copy, Debug, PartialEq, Eq)]
pub enum Section {
    Users,
}

impl Section {
    /// The section a URL fragment names; every fragment names the users
    /// section, the only one there is.
    pub fn from_hash(hash: &str) -> (r: Section)
        ensures
            r == Section::Users,
    {
        Section::Users
    }

    /// The URL fragment of the section.
    pub fn as_hash(self) -> (r: &'static str)
        ensures
            r@ == "#users"@,
    {
        match self {
            Section::Users => "#users",
        }
    }
}

} // verus!

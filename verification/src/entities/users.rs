//! The `users` table.

use vstd::prelude::*;

use crate::format::UtcTime;

verus! {

/// One stored user.
#[derive(Clone, Debug, PartialEq)]
pub struct Model {
    pub id: i64,
    pub version: i64,
    pub token: String,
    pub username: String,
    pub full_name: String,
    pub password_hash: String,
    pub email_address: String,
    /// The capability set as JSON text.
    pub capabilities: String,
    pub change_password_on_login: bool,
    pub created_at: UtcTime,
    pub updated_at: UtcTime,
}

} // verus!

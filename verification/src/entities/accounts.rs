//! The `accounts` table: the mail accounts a user archives.

use vstd::prelude::*;

use crate::format::UtcTime;

verus! {

/// One stored account.
#[derive(Clone, Debug, PartialEq)]
pub struct Model {
    pub id: i64,
    pub version: i64,
    pub token: String,
    pub user_id: i64,
    pub display_name: String,
    pub email_address: String,
    /// The IMAP server settings as JSON text.
    pub server: String,
    pub username: String,
    /// The encrypted password.
    pub credentials: Vec<u8>,
    pub enabled: bool,
    pub status: String,
    pub last_error: Option<String>,
    pub last_synced_at: Option<UtcTime>,
    pub created_at: UtcTime,
    pub updated_at: UtcTime,
}

} // verus!

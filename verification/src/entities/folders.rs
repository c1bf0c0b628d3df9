//! The `folders` table: the IMAP folders of an account.

use vstd::prelude::*;

use crate::format::UtcTime;

verus! {

/// One stored folder.
#[derive(Clone, Debug, PartialEq)]
pub struct Model {
    pub id: i64,
    pub version: i64,
    pub token: String,
    pub account_id: i64,
    /// The folder's full path on the server.
    pub path: String,
    pub display_name: String,
    /// The folder's special use, by name.
    pub special_use: Option<String>,
    /// Whether the folder is archived.
    pub enabled: bool,
    /// Whether the folder is watched with IMAP IDLE.
    pub idle_enabled: bool,
    pub uidvalidity: Option<i64>,
    /// The highest UID fetched so far.
    pub last_uid: i64,
    pub last_synced_at: Option<UtcTime>,
    pub last_error: Option<String>,
    pub created_at: UtcTime,
    pub updated_at: UtcTime,
}

} // verus!

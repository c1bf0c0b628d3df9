//! The `message_locations` table: where on the server a message was seen.

use vstd::prelude::*;

use crate::format::UtcTime;

verus! {

/// One place (folder and UID) a message is stored at on the server.
#[derive(Clone, Debug, PartialEq)]
pub struct Model {
    pub id: i64,
    pub version: i64,
    pub token: String,
    pub message_id: i64,
    pub folder_id: i64,
    pub uid: i64,
    pub uidvalidity: i64,
    /// The IMAP flags as JSON text.
    pub flags: String,
    pub internal_date: UtcTime,
    pub first_seen_at: UtcTime,
    pub updated_at: UtcTime,
}

} // verus!

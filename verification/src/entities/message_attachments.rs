//! The `message_attachments` table: the attachments of a stored message.

use vstd::prelude::*;

use crate::format::UtcTime;

verus! {

/// One stored attachment.
#[derive(Clone, Debug, PartialEq)]
pub struct Model {
    pub id: i64,
    pub version: i64,
    pub token: String,
    pub message_id: i64,
    pub account_id: i64,
    /// Hex digest of the attachment's bytes.
    pub content_hash: String,
    pub filename: Option<String>,
    pub content_type: String,
    pub size_bytes: i64,
    pub is_inline: bool,
    pub content_id: Option<String>,
    pub created_at: UtcTime,
    pub updated_at: UtcTime,
}

} // verus!

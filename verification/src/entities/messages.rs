//! The `messages` table: one row per distinct message of an account.

use vstd::prelude::*;

use crate::format::UtcTime;

verus! {

/// One stored message.
#[derive(Clone, Debug, PartialEq)]
pub struct Model {
    pub id: i64,
    pub version: i64,
    pub token: String,
    pub account_id: i64,
    pub rfc822_message_id: String,
    /// Hex digest of the raw message.
    pub content_hash: String,
    pub subject: Option<String>,
    pub from_address: String,
    pub from_name: Option<String>,
    /// The address lists and references as JSON text.
    pub to_addresses: String,
    pub cc_addresses: String,
    pub bcc_addresses: String,
    pub reply_to_addresses: String,
    pub sent_date: Option<UtcTime>,
    pub in_reply_to: Option<String>,
    pub references: String,
    pub snippet: String,
    pub size_bytes: i64,
    pub has_attachments: bool,
    pub attachment_count: i32,
    /// Whether the search index holds the message.
    pub indexed: bool,
    pub created_at: UtcTime,
    pub updated_at: UtcTime,
}

} // verus!

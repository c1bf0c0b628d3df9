//! Messages: the row a new message is stored as, and the checks of the
//! message store.

use vstd::prelude::*;

use crate::db_error::{require_id, StoreError};
use crate::entities::messages::Model;
use crate::entities::saved_stamp;
use crate::format::UtcTime;
use crate::text::{clone_opt_string, opt_chars};

verus! {

/// The messages' storage adapter.
pub struct MessageRepositoryAdapter;

/// A message fetched from the server, to be stored.
#[derive(Clone, Debug)]
pub struct NewMessageRow {
    /// Id and token the row is stored under.
    pub id: i64,
    pub token: String,
    pub account_id: u64,
    pub rfc822_message_id: String,
    /// Hex digest of the raw message.
    pub content_hash: String,
    pub subject: Option<String>,
    pub from_address: String,
    pub from_name: Option<String>,
    /// The address lists and references as JSON text.
    pub to_addresses: String,
    pub cc_addresses: String,
    pub bcc_addresses: String,
    pub reply_to_addresses: String,
    pub sent_date: Option<UtcTime>,
    pub in_reply_to: Option<String>,
    pub references: String,
    pub snippet: String,
    pub size_bytes: i64,
    pub has_attachments: bool,
    pub attachment_count: i32,
}

/// `r` is the row `new` is stored as: not yet in the search index; storing
/// it counts as its first change, so it holds version 1.
pub open spec fn created(new: NewMessageRow, now: UtcTime, r: Model) -> bool {
    &&& r.id == new.id
    &&& r.version == 1
    &&& r.token@ == new.token@
    &&& r.account_id == new.account_id as i64
    &&& r.rfc822_message_id@ == new.rfc822_message_id@
    &&& r.content_hash@ == new.content_hash@
    &&& opt_chars(r.subject) == opt_chars(new.subject)
    &&& r.from_address@ == new.from_address@
    &&& opt_chars(r.from_name) == opt_chars(new.from_name)
    &&& r.to_addresses@ == new.to_addresses@
    &&& r.cc_addresses@ == new.cc_addresses@
    &&& r.bcc_addresses@ == new.bcc_addresses@
    &&& r.reply_to_addresses@ == new.reply_to_addresses@
    &&& r.sent_date == new.sent_date
    &&& opt_chars(r.in_reply_to) == opt_chars(new.in_reply_to)
    &&& r.references@ == new.references@
    &&& r.snippet@ == new.snippet@
    &&& r.size_bytes == new.size_bytes
    &&& r.has_attachments == new.has_attachments
    &&& r.attachment_count == new.attachment_count
    &&& !r.indexed
    &&& r.created_at == now
    &&& r.updated_at == now
}

impl MessageRepositoryAdapter {
    pub fn new() -> (r: Self) {
        MessageRepositoryAdapter
    }

    /// The row a new message is stored as; an account id of zero is
    /// refused.
    pub fn created_row(&self, new: &NewMessageRow, now: UtcTime) -> (r: Result<Model, StoreError>)
        ensures
            new.account_id == 0 ==> r == Err::<Model, StoreError>(StoreError::InvalidId(new.account_id)),
            new.account_id != 0 ==> (r matches Ok(m) && created(*new, now, m)),
    {
        if let Err(e) = require_id(new.account_id) {
            return Err(e);
        }
        let (version, updated_at) = saved_stamp(0, now, true, now);
        Ok(
            Model {
                id: new.id,
                version,
                token: new.token.clone(),
                account_id: new.account_id as i64,
                rfc822_message_id: new.rfc822_message_id.clone(),
                content_hash: new.content_hash.clone(),
                subject: clone_opt_string(&new.subject),
                from_address: new.from_address.clone(),
                from_name: clone_opt_string(&new.from_name),
                to_addresses: new.to_addresses.clone(),
                cc_addresses: new.cc_addresses.clone(),
                bcc_addresses: new.bcc_addresses.clone(),
                reply_to_addresses: new.reply_to_addresses.clone(),
                sent_date: new.sent_date,
                in_reply_to: clone_opt_string(&new.in_reply_to),
                references: new.references.clone(),
                snippet: new.snippet.clone(),
                size_bytes: new.size_bytes,
                has_attachments: new.has_attachments,
                attachment_count: new.attachment_count,
                indexed: false,
                created_at: now,
                updated_at,
            },
        )
    }

    /// Marking messages as indexed touches the database only when there is
    /// something to mark.
    pub fn needs_index_update(&self, ids: &Vec<u64>) -> (r: bool)
        ensures
            r == (ids@.len() > 0),
    {
        ids.len() > 0
    }
}

} // verus!

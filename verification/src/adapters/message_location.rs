//! Message locations: where a message was last seen, kept one row per
//! message and folder.

use vstd::prelude::*;

use crate::db_error::{require_id, StoreError};
use crate::entities::message_locations::Model;
use crate::format::UtcTime;

verus! {

/// The locations' storage adapter.
pub struct MessageLocationRepositoryAdapter;

/// A location reported by a sync.
#[derive(Clone, Debug, PartialEq)]
pub struct LocationRow {
    /// Id and token for the row, used when the location is new.
    pub id: i64,
    pub token: String,
    pub message_id: u64,
    pub folder_id: u64,
    pub uid: u32,
    pub uidvalidity: u32,
    /// The IMAP flags as JSON text.
    pub flags: String,
    pub internal_date: UtcTime,
}

impl MessageLocationRepositoryAdapter {
    pub fn new() -> (r: Self) {
        MessageLocationRepositoryAdapter
    }

    /// Filtering messages by folder asks the store only when there are both
    /// messages and folders; otherwise the answer is empty at once.
    pub fn needs_filter_query(&self, message_ids: &Vec<u64>, folder_ids: &Vec<u64>) -> (r: bool)
        ensures
            r == (message_ids@.len() > 0 && folder_ids@.len() > 0),
    {
        message_ids.len() > 0 && folder_ids.len() > 0
    }

    /// A location names its message and its folder.
    pub fn check_ids(&self, message_id: u64, folder_id: u64) -> (r: Result<(), StoreError>)
        ensures
            r == (if message_id == 0 {
                Err(StoreError::InvalidId(message_id))
            } else if folder_id == 0 {
                Err(StoreError::InvalidId(folder_id))
            } else {
                Ok(())
            }),
    {
        if let Err(e) = require_id(message_id) {
            return Err(e);
        }
        require_id(folder_id)
    }

    /// The row an upsert leaves: the stored location of the same message and
    /// folder takes the reported UID, validity, flags and date (a change, so
    /// its version rises by one); without one a new row is stored, at
    /// version 1 after its first save.
    pub fn upserted_row(&self, existing: Option<&Model>, row: &LocationRow, now: UtcTime) -> (r: Model)
        requires
            existing matches Some(m) ==> m.version < i64::MAX,
        ensures
            r.uid == row.uid as i64,
            r.uidvalidity == row.uidvalidity as i64,
            r.flags@ == row.flags@,
            r.internal_date == row.internal_date,
            r.updated_at == now,
            match existing {
                Some(m) => r.id == m.id && r.token@ == m.token@ && r.message_id == m.message_id && r.folder_id
                    == m.folder_id && r.first_seen_at == m.first_seen_at && r.version == m.version + 1,
                None => r.id == row.id && r.token@ == row.token@ && r.message_id == row.message_id as i64
                    && r.folder_id == row.folder_id as i64 && r.first_seen_at == now && r.version == 1,
            },
    {
        match existing {
            Some(m) => Model {
                id: m.id,
                version: m.version + 1,
                token: m.token.clone(),
                message_id: m.message_id,
                folder_id: m.folder_id,
                uid: row.uid as i64,
                uidvalidity: row.uidvalidity as i64,
                flags: row.flags.clone(),
                internal_date: row.internal_date,
                first_seen_at: m.first_seen_at,
                updated_at: now,
            },
            None => Model {
                id: row.id,
                version: 1,
                token: row.token.clone(),
                message_id: row.message_id as i64,
                folder_id: row.folder_id as i64,
                uid: row.uid as i64,
                uidvalidity: row.uidvalidity as i64,
                flags: row.flags.clone(),
                internal_date: row.internal_date,
                first_seen_at: now,
                updated_at: now,
            },
        }
    }
}

} // verus!

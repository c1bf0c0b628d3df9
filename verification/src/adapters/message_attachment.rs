//! Attachments: the rows a message's attachments are stored as.

use vstd::prelude::*;

use crate::db_error::{require_id, StoreError};
use crate::entities::message_attachments::Model;
use crate::entities::saved_stamp;
use crate::format::UtcTime;
use crate::text::{clone_opt_string, opt_chars};

verus! {

/// The attachments' storage adapter.
pub struct MessageAttachmentRepositoryAdapter;

/// An attachment found in a fetched message, to be stored.
#[derive(Clone, Debug)]
pub struct NewAttachmentRow {
    /// Id and token the row is stored under.
    pub id: i64,
    pub token: String,
    pub message_id: u64,
    pub account_id: u64,
    /// Hex digest of the attachment's bytes.
    pub content_hash: String,
    pub filename: Option<String>,
    pub content_type: String,
    pub size_bytes: i64,
    pub is_inline: bool,
    pub content_id: Option<String>,
}

/// The refusal of a row, if it has one: a zero message id, then a zero
/// account id.
pub open spec fn row_error(row: NewAttachmentRow) -> Option<StoreError> {
    if row.message_id == 0 {
        Some(StoreError::InvalidId(row.message_id))
    } else if row.account_id == 0 {
        Some(StoreError::InvalidId(row.account_id))
    } else {
        None
    }
}

/// `r` is the row `row` is stored as, created at `now`; storing it counts
/// as its first change, so it holds version 1.
pub open spec fn inserted(row: NewAttachmentRow, now: UtcTime, r: Model) -> bool {
    &&& r.id == row.id
    &&& r.version == 1
    &&& r.token@ == row.token@
    &&& r.message_id == row.message_id as i64
    &&& r.account_id == row.account_id as i64
    &&& r.content_hash@ == row.content_hash@
    &&& opt_chars(r.filename) == opt_chars(row.filename)
    &&& r.content_type@ == row.content_type@
    &&& r.size_bytes == row.size_bytes
    &&& r.is_inline == row.is_inline
    &&& opt_chars(r.content_id) == opt_chars(row.content_id)
    &&& r.created_at == now
    &&& r.updated_at == now
}

/// Position of the first refused row at or after `i`.
pub open spec fn first_refused(rows: Seq<NewAttachmentRow>, i: nat) -> Option<nat>
    decreases rows.len() - i,
{
    if i >= rows.len() {
        None
    } else if row_error(rows[i as int]) is Some {
        Some(i)
    } else {
        first_refused(rows, i + 1)
    }
}

proof fn lemma_first_refused_bounds(rows: Seq<NewAttachmentRow>, i: nat)
    ensures
        match first_refused(rows, i) {
            Some(k) => i <= k < rows.len() && row_error(rows[k as int]) is Some && forall|j: int|
                i <= j < k ==> row_error(#[trigger] rows[j]) is None,
            None => forall|j: int| i <= j < rows.len() ==> row_error(#[trigger] rows[j]) is None,
        },
    decreases rows.len() - i,
{
    if i < rows.len() {
        lemma_first_refused_bounds(rows, i + 1);
    }
}

impl MessageAttachmentRepositoryAdapter {
    pub fn new() -> (r: Self) {
        MessageAttachmentRepositoryAdapter
    }

    /// An attachment row names its message and its account.
    pub fn check_row(&self, message_id: u64, account_id: u64) -> (r: Result<(), StoreError>)
        ensures
            r == (if message_id == 0 {
                Err(StoreError::InvalidId(message_id))
            } else if account_id == 0 {
                Err(StoreError::InvalidId(account_id))
            } else {
                Ok(())
            }),
    {
        if let Err(e) = require_id(message_id) {
            return Err(e);
        }
        require_id(account_id)
    }

    /// The row one new attachment is stored as.
    pub fn inserted_row(&self, row: &NewAttachmentRow, now: UtcTime) -> (r: Model)
        ensures
            inserted(*row, now, r),
    {
        let (version, updated_at) = saved_stamp(0, now, true, now);
        Model {
            id: row.id,
            version,
            token: row.token.clone(),
            message_id: row.message_id as i64,
            account_id: row.account_id as i64,
            content_hash: row.content_hash.clone(),
            filename: clone_opt_string(&row.filename),
            content_type: row.content_type.clone(),
            size_bytes: row.size_bytes,
            is_inline: row.is_inline,
            content_id: clone_opt_string(&row.content_id),
            created_at: now,
            updated_at,
        }
    }

    /// The rows a batch of attachments is stored as, in order; the batch is
    /// refused with the error of its first row that names no message or no
    /// account.
    pub fn inserted_rows(&self, rows: &Vec<NewAttachmentRow>, now: UtcTime) -> (r: Result<Vec<Model>, StoreError>)
        ensures
            match first_refused(rows@, 0) {
                Some(k) => r == Err::<Vec<Model>, StoreError>(row_error(rows@[k as int])->0),
                None => r matches Ok(v) && v@.len() == rows@.len() && forall|i: int|
                    0 <= i < rows@.len() ==> inserted(rows@[i], now, #[trigger] v@[i]),
            },
    {
        proof {
            lemma_first_refused_bounds(rows@, 0);
        }
        let mut out: Vec<Model> = Vec::new();
        let mut i: usize = 0;
        while i < rows.len()
            invariant
                i <= rows@.len(),
                out@.len() == i,
                forall|j: int| 0 <= j < i ==> row_error(#[trigger] rows@[j]) is None,
                forall|j: int| 0 <= j < i ==> inserted(rows@[j], now, #[trigger] out@[j]),
            decreases rows@.len() - i,
        {
            let row = &rows[i];
            if let Err(e) = self.check_row(row.message_id, row.account_id) {
                proof {
                    lemma_first_refused_bounds(rows@, 0);
                    assert(first_refused(rows@, 0) == Some(i as nat));
                }
                return Err(e);
            }
            let m = self.inserted_row(row, now);
            out.push(m);
            i = i + 1;
        }
        Ok(out)
    }
}

} // verus!

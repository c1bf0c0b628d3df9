//! Archive statistics: the queries that gather them on each database, and
//! how their answers add up.

use vstd::prelude::*;

use crate::format::UtcTime;
use crate::text::push_str;

verus! {

/// The statistics' storage adapter.
pub struct StatsRepositoryAdapter;

/// The database flavour a query is written for.
#[derive(Clone, Copy, Debug, PartialEq, Eq)]
pub enum DbBackend {
    Postgres,
    MySql,
    Sqlite,
}

/// A user's archive in numbers.
#[derive(Clone, Copy, Debug, PartialEq, Eq)]
pub struct ArchiveStats {
    pub message_count: u64,
    pub attachment_count: u64,
    pub storage_bytes: u64,
    pub account_count: u64,
    pub last_synced_at: Option<UtcTime>,
}

/// The bind placeholder and the integer type of a backend.
pub open spec fn tokens_spec(backend: DbBackend) -> (Seq<char>, Seq<char>) {
    match backend {
        DbBackend::Postgres => ("$1"@, "BIGINT"@),
        DbBackend::MySql => ("?"@, "SIGNED"@),
        DbBackend::Sqlite => ("?"@, "INTEGER"@),
    }
}

/// Message count, raw size and attachment count of the user's messages.
pub open spec fn messages_query(ph: Seq<char>, int_ty: Seq<char>) -> Seq<char> {
    "SELECT COUNT(*) AS message_count, CAST(COALESCE(SUM(size_bytes), 0) AS "@ + int_ty
        + ") AS storage_bytes, CAST(COALESCE(SUM(attachment_count), 0) AS "@ + int_ty
        + ") AS attachment_count FROM messages WHERE account_id IN (SELECT id FROM accounts WHERE user_id = "@
        + ph + ")"@
}

/// Stored attachment bytes, each distinct blob of an account counted once.
pub open spec fn attachments_query(ph: Seq<char>, int_ty: Seq<char>) -> Seq<char> {
    "SELECT CAST(COALESCE(SUM(size_bytes), 0) AS "@ + int_ty
        + ") AS storage_bytes FROM (SELECT DISTINCT account_id, content_hash, size_bytes FROM message_attachments WHERE account_id IN (SELECT id FROM accounts WHERE user_id = "@
        + ph + ")) AS distinct_attachments"@
}

pub open spec fn accounts_query(ph: Seq<char>) -> Seq<char> {
    "SELECT COUNT(*) AS account_count FROM accounts WHERE user_id = "@ + ph
}

pub open spec fn last_sync_query(ph: Seq<char>) -> Seq<char> {
    "SELECT MAX(last_synced_at) AS last_synced_at FROM folders WHERE account_id IN (SELECT id FROM accounts WHERE user_id = "@
        + ph + ")"@
}

/// The statistics queries of a backend.
#[derive(Clone, Debug, PartialEq)]
pub struct StatsQueries {
    pub messages: String,
    pub attachments: String,
    pub accounts: String,
    pub last_sync: String,
}

impl StatsRepositoryAdapter {
    pub fn new() -> (r: Self) {
        StatsRepositoryAdapter
    }

    /// The bind placeholder and the integer type to cast sums to.
    pub fn sql_tokens(&self, backend: DbBackend) -> (r: (&'static str, &'static str))
        ensures
            (r.0@, r.1@) == tokens_spec(backend),
    {
        match backend {
            DbBackend::Postgres => ("$1", "BIGINT"),
            DbBackend::MySql => ("?", "SIGNED"),
            DbBackend::Sqlite => ("?", "INTEGER"),
        }
    }

    /// The four statistics queries, each bound to the user id.
    pub fn queries(&self, backend: DbBackend) -> (r: StatsQueries)
        ensures
            r.messages@ == messages_query(tokens_spec(backend).0, tokens_spec(backend).1),
            r.attachments@ == attachments_query(tokens_spec(backend).0, tokens_spec(backend).1),
            r.accounts@ == accounts_query(tokens_spec(backend).0),
            r.last_sync@ == last_sync_query(tokens_spec(backend).0),
    {
        let (ph, int_ty) = self.sql_tokens(backend);
        let mut messages = String::from_str(
            "SELECT COUNT(*) AS message_count, CAST(COALESCE(SUM(size_bytes), 0) AS ",
        );
        push_str(&mut messages, int_ty);
        push_str(&mut messages, ") AS storage_bytes, CAST(COALESCE(SUM(attachment_count), 0) AS ");
        push_str(&mut messages, int_ty);
        push_str(
            &mut messages,
            ") AS attachment_count FROM messages WHERE account_id IN (SELECT id FROM accounts WHERE user_id = ",
        );
        push_str(&mut messages, ph);
        push_str(&mut messages, ")");
        let mut attachments = String::from_str("SELECT CAST(COALESCE(SUM(size_bytes), 0) AS ");
        push_str(&mut attachments, int_ty);
        push_str(
            &mut attachments,
            ") AS storage_bytes FROM (SELECT DISTINCT account_id, content_hash, size_bytes FROM message_attachments WHERE account_id IN (SELECT id FROM accounts WHERE user_id = ",
        );
        push_str(&mut attachments, ph);
        push_str(&mut attachments, ")) AS distinct_attachments");
        let mut accounts = String::from_str("SELECT COUNT(*) AS account_count FROM accounts WHERE user_id = ");
        push_str(&mut accounts, ph);
        let mut last_sync = String::from_str(
            "SELECT MAX(last_synced_at) AS last_synced_at FROM folders WHERE account_id IN (SELECT id FROM accounts WHERE user_id = ",
        );
        push_str(&mut last_sync, ph);
        push_str(&mut last_sync, ")");
        StatsQueries { messages, attachments, accounts, last_sync }
    }

    /// The statistics from the four answers: storage is the raw messages'
    /// bytes plus the distinct attachment blobs' bytes.
    pub fn combine(
        &self,
        message_count: i64,
        message_bytes: i64,
        attachment_count: i64,
        attachment_bytes: i64,
        account_count: i64,
        last_synced_at: Option<UtcTime>,
    ) -> (r: ArchiveStats)
        requires
            i64::MIN <= message_bytes + attachment_bytes <= i64::MAX,
        ensures
            r.message_count == message_count as u64,
            r.attachment_count == attachment_count as u64,
            r.storage_bytes == (message_bytes + attachment_bytes) as i64 as u64,
            r.account_count == account_count as u64,
            r.last_synced_at == last_synced_at,
    {
        ArchiveStats {
            message_count: message_count as u64,
            attachment_count: attachment_count as u64,
            storage_bytes: (message_bytes + attachment_bytes) as u64,
            account_count: account_count as u64,
            last_synced_at,
        }
    }
}

} // verus!

use mailkeep::adapters::account::{AccountChanges, AccountRepositoryAdapter};
use mailkeep::accounts::SpecialUse;
use mailkeep::adapters::folder::{FolderRepositoryAdapter, NewFolderRow};
use mailkeep::adapters::message::{MessageRepositoryAdapter, NewMessageRow};
use mailkeep::adapters::message_attachment::{MessageAttachmentRepositoryAdapter, NewAttachmentRow};
use mailkeep::adapters::message_location::{LocationRow, MessageLocationRepositoryAdapter};
use mailkeep::adapters::stats::{DbBackend, StatsRepositoryAdapter};
use mailkeep::adapters::user::{UserChanges, UserRepositoryAdapter};
use mailkeep::adapters::user_settings::{NewUserSetting, UserSettingRepositoryAdapter};
use mailkeep::db_error::{check_rows_affected, handle_dberr, require_id, DbFailure, RepositoryError, SqlError, StoreError};
use mailkeep::entities::{user_settings, users};
use mailkeep::format::UtcTime;

fn t(secs: i64) -> UtcTime {
    UtcTime { secs, nanos: 0 }
}

fn failure(message: &str) -> DbFailure {
    DbFailure { message: message.into(), connection_lost: false, sql_error: None, database_error: None }
}

#[test]
fn database_failures_are_classified() {
    let lost = DbFailure { connection_lost: true, ..failure("pool timed out") };
    assert_eq!(handle_dberr(lost), RepositoryError::Connection("pool timed out".into()));
    let unique = DbFailure { sql_error: Some(SqlError::UniqueConstraintViolation("dup".into())), ..failure("x") };
    assert_eq!(handle_dberr(unique), RepositoryError::Constraint("dup".into()));
    let fk = DbFailure { sql_error: Some(SqlError::ForeignKeyConstraintViolation("fk".into())), ..failure("x") };
    assert_eq!(handle_dberr(fk), RepositoryError::Constraint("Foreign key violation: fk".into()));
    let other = DbFailure { sql_error: Some(SqlError::Other), ..failure("weird") };
    assert_eq!(handle_dberr(other), RepositoryError::Database("weird".into()));
    let code = |c: &str| DbFailure { database_error: Some((c.into(), "db says".into())), ..failure("text") };
    assert_eq!(handle_dberr(code("25006")), RepositoryError::ReadOnly);
    assert_eq!(handle_dberr(code("23505")), RepositoryError::Constraint("db says".into()));
    assert_eq!(handle_dberr(code("23503")), RepositoryError::Constraint("Foreign key violation: db says".into()));
    assert_eq!(handle_dberr(code("40001")), RepositoryError::Conflict);
    assert_eq!(handle_dberr(code("57014")), RepositoryError::QueryCanceled);
    assert_eq!(handle_dberr(code("99999")), RepositoryError::Database("text".into()));
    assert_eq!(handle_dberr(failure("plain")), RepositoryError::Database("plain".into()));
}

#[test]
fn guards() {
    assert_eq!(require_id(0), Err(StoreError::InvalidId(0)));
    assert_eq!(require_id(5), Ok(()));
    assert_eq!(check_rows_affected("complete", 7, 1), Ok(()));
    assert_eq!(
        check_rows_affected("complete", 7, 0),
        Err(StoreError::Infrastructure("complete(7) affected 0 rows — version conflict or row missing".into()))
    );
    assert_eq!(
        check_rows_affected("fail", -3, 2),
        Err(StoreError::Infrastructure("fail(-3) affected 2 rows — version conflict or row missing".into()))
    );
    assert_eq!(
        FolderRepositoryAdapter::new().check_row_account(1, 2),
        Err(StoreError::Validation("NewFolderRow.account_id must match the create_many account_id".into()))
    );
    assert_eq!(MessageAttachmentRepositoryAdapter::new().check_row(0, 1), Err(StoreError::InvalidId(0)));
    assert_eq!(MessageAttachmentRepositoryAdapter::new().check_row(1, 0), Err(StoreError::InvalidId(0)));
    assert!(!MessageRepositoryAdapter::new().needs_index_update(&vec![]));
    let _ = UserSettingRepositoryAdapter::new();
}

fn changes(name: &str) -> AccountChanges {
    AccountChanges {
        display_name: name.into(),
        email_address: "user@example.com".into(),
        server: "{\"host\":\"example.com\",\"port\":993,\"tls\":\"Tls\"}".into(),
        username: "user@example.com".into(),
        credentials: vec![0u8; 28],
        enabled: true,
        status: "PendingFirstSync".into(),
        last_error: None,
    }
}

#[test]
fn insert_persists_row_with_version_one() {
    let a = AccountRepositoryAdapter::new();
    let c = changes("example.com Account");
    let row = a.new_row(42, "A_42".into(), 1, c.display_name.clone(), c.email_address.clone(), c.server.clone(), c.username.clone(), c.credentials.clone(), t(5));
    assert_eq!(row.version, 1);
    assert!(row.enabled);
    assert_eq!(row.status, "PendingFirstSync");
}

#[test]
fn account_update_versioning() {
    let a = AccountRepositoryAdapter::new();
    let c = changes("Old");
    let row = a.new_row(42, "A_42".into(), 1, c.display_name.clone(), c.email_address.clone(), c.server.clone(), c.username.clone(), c.credentials.clone(), t(5));
    let same = a.updated_row(&row, 1, &changes("Old"), t(6)).unwrap();
    assert_eq!(same.version, 1);
    assert_eq!(same.updated_at, t(5));
    let renamed = a.updated_row(&row, 1, &changes("New"), t(7)).unwrap();
    assert_eq!(renamed.version, 2);
    assert_eq!(renamed.display_name, "New");
    assert_eq!(renamed.updated_at, t(7));
    assert_eq!(a.updated_row(&row, 99, &changes("New"), t(7)), Err(StoreError::Repository(RepositoryError::Conflict)));
    let st = a.with_status(&row, "Error".into(), Some("auth".into()), t(8));
    assert_eq!((st.version, st.status.as_str(), st.last_error.as_deref()), (2, "Error", Some("auth")));
    let off = a.with_enabled(&row, false, t(9));
    assert_eq!((off.version, off.enabled), (2, false));
    assert_eq!(a.check_delete(&row, 0), Err(StoreError::Repository(RepositoryError::Conflict)));
    assert_eq!(a.check_delete(&row, 1), Ok(()));
}

#[test]
fn user_update_versioning() {
    let u = UserRepositoryAdapter::new();
    let row = users::Model {
        id: 3,
        version: 4,
        token: "U_3".into(),
        username: "amy".into(),
        full_name: "Amy".into(),
        password_hash: "h".into(),
        email_address: "amy@x".into(),
        capabilities: "[]".into(),
        change_password_on_login: false,
        created_at: t(1),
        updated_at: t(2),
    };
    let c = UserChanges {
        username: "amy".into(),
        full_name: "Amy Lee".into(),
        password_hash: "h".into(),
        email_address: "amy@x".into(),
        capabilities: "[]".into(),
        change_password_on_login: false,
    };
    let updated = u.updated_row(&row, 4, &c, t(3)).unwrap();
    assert_eq!(updated.version, 5);
    assert_eq!(updated.full_name, "Amy Lee");
    assert_eq!(u.updated_row(&row, 3, &c, t(3)), Err(StoreError::Repository(RepositoryError::Conflict)));
    assert_eq!(u.check_page_size(Some(0)), Err(StoreError::InvalidPageSize(0)));
    assert_eq!(u.check_page_size(Some(1)), Ok(()));
    assert_eq!(u.check_page_size(None), Ok(()));
}

#[test]
fn location_upsert() {
    let l = MessageLocationRepositoryAdapter::new();
    assert_eq!(l.check_ids(0, 1), Err(StoreError::InvalidId(0)));
    assert_eq!(l.check_ids(1, 0), Err(StoreError::InvalidId(0)));
    let row = LocationRow {
        id: 11,
        token: "L_11".into(),
        message_id: 5,
        folder_id: 6,
        uid: 100,
        uidvalidity: 7,
        flags: "[\"Seen\"]".into(),
        internal_date: t(50),
    };
    let inserted = l.upserted_row(None, &row, t(60));
    assert_eq!((inserted.version, inserted.first_seen_at, inserted.uid), (1, t(60), 100));
    let moved = LocationRow { uid: 200, ..row.clone() };
    let updated = l.upserted_row(Some(&inserted), &moved, t(70));
    assert_eq!((updated.id, updated.version, updated.uid, updated.first_seen_at), (11, 2, 200, t(60)));
}

#[test]
fn stats_queries_and_sums() {
    let s = StatsRepositoryAdapter::new();
    assert_eq!(s.sql_tokens(DbBackend::Postgres), ("$1", "BIGINT"));
    assert_eq!(s.sql_tokens(DbBackend::MySql), ("?", "SIGNED"));
    let q = s.queries(DbBackend::Sqlite);
    assert_eq!(q.accounts, "SELECT COUNT(*) AS account_count FROM accounts WHERE user_id = ?");
    assert!(q.messages.contains("CAST(COALESCE(SUM(size_bytes), 0) AS INTEGER) AS storage_bytes"));
    assert!(q.attachments.ends_with("WHERE user_id = ?)) AS distinct_attachments"));
    let stats = s.combine(3, 1000, 2, 500, 1, None);
    assert_eq!((stats.message_count, stats.storage_bytes, stats.attachment_count, stats.account_count), (3, 1500, 2, 1));
}

fn folder_row(account_id: u64, path: &str) -> NewFolderRow {
    NewFolderRow {
        id: 11,
        token: "fld_11".into(),
        account_id,
        path: path.into(),
        display_name: path.into(),
        special_use: Some(SpecialUse::Inbox),
        idle_enabled: true,
        uidvalidity: Some(42),
    }
}

#[test]
fn folder_rows_of_a_batch() {
    let a = FolderRepositoryAdapter::new();
    let rows = vec![folder_row(3, "INBOX"), folder_row(3, "Archive")];
    let stored = a.inserted_rows(3, &rows, t(100)).unwrap();
    assert_eq!(stored.len(), 2);
    assert_eq!(stored[0].path, "INBOX");
    assert_eq!(stored[1].path, "Archive");
    assert_eq!(stored[0].special_use, Some("inbox".to_string()));
    assert_eq!(stored[0].uidvalidity, Some(42));
    assert_eq!(stored[0].version, 1);
    assert_eq!(stored[0].updated_at, t(100));
    assert!(stored[0].enabled);
    assert_eq!(stored[0].last_uid, 0);
    assert_eq!(stored[0].last_synced_at, None);
    assert_eq!(stored[0].created_at, t(100));
    assert_eq!(a.inserted_rows(0, &rows, t(100)), Err(StoreError::InvalidId(0)));
    let mixed = vec![folder_row(3, "INBOX"), folder_row(4, "Other")];
    assert_eq!(
        a.inserted_rows(3, &mixed, t(100)),
        Err(StoreError::Validation("NewFolderRow.account_id must match the create_many account_id".into()))
    );
    assert_eq!(a.inserted_rows(3, &vec![], t(100)), Ok(vec![]));
}

#[test]
fn folder_sync_and_switches() {
    let a = FolderRepositoryAdapter::new();
    let row = a.inserted_row(&folder_row(3, "INBOX"), t(100));
    let synced = a.synced_row(&row, 7, 99, t(200), t(201));
    assert_eq!(synced.version, 2);
    assert_eq!(synced.updated_at, t(201));
    assert_eq!(synced.created_at, t(100));
    assert_eq!(synced.uidvalidity, Some(7));
    assert_eq!(synced.last_uid, 99);
    assert_eq!(synced.last_synced_at, Some(t(200)));
    assert_eq!(synced.path, "INBOX");
    assert!(synced.enabled);
    let off = a.with_enabled(&synced, false, t(202));
    assert_eq!(off.version, 3);
    assert!(!off.enabled);
    assert!(off.idle_enabled);
    assert_eq!(off.last_uid, 99);
    let no_idle = a.with_idle_enabled(&off, false, t(203));
    assert_eq!(no_idle.version, 4);
    assert_eq!(no_idle.updated_at, t(203));
    assert!(!no_idle.idle_enabled);
    assert!(!no_idle.enabled);
}

fn message_row(account_id: u64) -> NewMessageRow {
    NewMessageRow {
        id: 21,
        token: "msg_21".into(),
        account_id,
        rfc822_message_id: "<m1@x.com>".into(),
        content_hash: "ab".repeat(32),
        subject: Some("Hello".into()),
        from_address: "a@x.com".into(),
        from_name: None,
        to_addresses: "[]".into(),
        cc_addresses: "[]".into(),
        bcc_addresses: "[]".into(),
        reply_to_addresses: "[]".into(),
        sent_date: Some(t(50)),
        in_reply_to: None,
        references: "[]".into(),
        snippet: "hi".into(),
        size_bytes: 1234,
        has_attachments: false,
        attachment_count: 0,
    }
}

#[test]
fn message_created_row() {
    let a = MessageRepositoryAdapter::new();
    let m = a.created_row(&message_row(5), t(60)).unwrap();
    assert_eq!(m.version, 1);
    assert!(!m.indexed);
    assert_eq!(m.account_id, 5);
    assert_eq!(m.subject, Some("Hello".to_string()));
    assert_eq!(m.sent_date, Some(t(50)));
    assert_eq!(m.created_at, t(60));
    assert_eq!(m.updated_at, t(60));
    assert_eq!(a.created_row(&message_row(0), t(60)), Err(StoreError::InvalidId(0)));
}

fn attachment_row(message_id: u64, account_id: u64) -> NewAttachmentRow {
    NewAttachmentRow {
        id: 31,
        token: "att_31".into(),
        message_id,
        account_id,
        content_hash: "cd".repeat(32),
        filename: Some("a.pdf".into()),
        content_type: "application/pdf".into(),
        size_bytes: 2048,
        is_inline: false,
        content_id: Some("cid-1".into()),
    }
}

#[test]
fn attachment_rows_of_a_batch() {
    let a = MessageAttachmentRepositoryAdapter::new();
    let rows = vec![attachment_row(1, 2), attachment_row(1, 2)];
    let stored = a.inserted_rows(&rows, t(70)).unwrap();
    assert_eq!(stored.len(), 2);
    assert_eq!(stored[0].filename, Some("a.pdf".to_string()));
    assert_eq!(stored[1].message_id, 1);
    assert_eq!(stored[1].version, 1);
    let bad = vec![attachment_row(1, 2), attachment_row(1, 0), attachment_row(0, 2)];
    assert_eq!(a.inserted_rows(&bad, t(70)), Err(StoreError::InvalidId(0)));
}

#[test]
fn user_setting_upsert() {
    let a = UserSettingRepositoryAdapter::new();
    let first = NewUserSetting { user_id: 9, key: "theme".into(), value: "dark".into() };
    let created = a.stored_row(None, &first, t(10));
    assert_eq!(created, user_settings::Model { user_id: 9, key: "theme".into(), value: "dark".into(), created_at: t(10), updated_at: t(10) });
    let second = NewUserSetting { user_id: 9, key: "theme".into(), value: "light".into() };
    let updated = a.stored_row(Some(&created), &second, t(20));
    assert_eq!(updated.value, "light");
    assert_eq!(updated.created_at, t(10));
    assert_eq!(updated.updated_at, t(20));
}

#[test]
fn user_inserted_row() {
    let a = UserRepositoryAdapter::new();
    let fields = UserChanges {
        username: "alice".into(),
        full_name: "Alice".into(),
        password_hash: "hash".into(),
        email_address: "alice@example.com".into(),
        capabilities: "[]".into(),
        change_password_on_login: true,
    };
    let row = a.inserted_row(77, "usr_77".into(), &fields, t(5));
    assert_eq!(row.id, 77);
    assert_eq!(row.token, "usr_77");
    assert_eq!(row.username, "alice");
    assert_eq!(row.version, 1);
    assert!(row.change_password_on_login);
    assert_eq!(row.created_at, t(5));
}

#[test]
fn account_update_outcomes() {
    let a = AccountRepositoryAdapter::new();
    let c = changes("Old");
    let row = a.new_row(42, "A_42".into(), 1, c.display_name.clone(), c.email_address.clone(), c.server.clone(), c.username.clone(), c.credentials.clone(), t(5));
    assert_eq!(a.update_outcome(0, Some(&row), 1, &changes("New"), t(6)), Err(StoreError::InvalidId(0)));
    assert_eq!(a.update_outcome(42, None, 1, &changes("New"), t(6)), Err(StoreError::Repository(RepositoryError::NotFound)));
    assert_eq!(a.update_outcome(42, Some(&row), 2, &changes("New"), t(6)), Err(StoreError::Repository(RepositoryError::Conflict)));
    let b = a.update_outcome(42, Some(&row), 1, &changes("New"), t(6)).unwrap();
    assert_eq!(b.display_name, "New");
    assert_eq!(b.version, 2);
    assert_eq!(b.updated_at, t(6));
    assert_eq!(b.created_at, t(5));
}

#[test]
fn location_filter_short_cut() {
    let a = MessageLocationRepositoryAdapter::new();
    assert!(!a.needs_filter_query(&vec![], &vec![1]));
    assert!(!a.needs_filter_query(&vec![1], &vec![]));
    assert!(a.needs_filter_query(&vec![1, 2], &vec![3]));
}

#[test]
fn user_update_outcomes() {
    let u = UserRepositoryAdapter::new();
    let fields = UserChanges {
        username: "alice".into(),
        full_name: "Alice".into(),
        password_hash: "hash".into(),
        email_address: "alice@example.com".into(),
        capabilities: "[]".into(),
        change_password_on_login: false,
    };
    let row = u.inserted_row(77, "usr_77".into(), &fields, t(5));
    let renamed = UserChanges { username: "alice-updated".into(), ..fields.clone() };
    assert_eq!(u.update_outcome(0, Some(&row), 1, &renamed, t(6)), Err(StoreError::InvalidId(0)));
    assert_eq!(u.update_outcome(999, None, 1, &renamed, t(6)), Err(StoreError::Repository(RepositoryError::NotFound)));
    assert_eq!(u.update_outcome(77, Some(&row), 7, &renamed, t(6)), Err(StoreError::Repository(RepositoryError::Conflict)));
    let v = u.update_outcome(77, Some(&row), 1, &renamed, t(6)).unwrap();
    assert_eq!(v.username, "alice-updated");
    assert_eq!(v.version, 2);
    assert_eq!(v.token, "usr_77");
    assert_eq!(v.created_at, t(5));
}

//! Accounts: the row a new account is stored as, and what an edit, a status
//! change or a switch does to a stored row.

use vstd::prelude::*;

use crate::db_error::{check_version, require_id, StoreError};
use crate::entities::accounts::Model;
use crate::entities::saved_stamp;
use crate::format::UtcTime;
use crate::text::{bytes_eq, clone_opt_string, opt_chars, opt_str_eq, str_eq};

verus! {

/// The accounts' storage adapter.
pub struct AccountRepositoryAdapter;

/// The editable fields of an account, as the caller wants them.
#[derive(Clone, Debug, PartialEq)]
pub struct AccountChanges {
    pub display_name: String,
    pub email_address: String,
    /// The IMAP server settings as JSON text.
    pub server: String,
    pub username: String,
    pub credentials: Vec<u8>,
    pub enabled: bool,
    pub status: String,
    pub last_error: Option<String>,
}

/// Some editable field differs from the stored row.
pub open spec fn account_changed(m: Model, c: AccountChanges) -> bool {
    ||| m.display_name@ != c.display_name@
    ||| m.email_address@ != c.email_address@
    ||| m.server@ != c.server@
    ||| m.username@ != c.username@
    ||| m.credentials@ != c.credentials@
    ||| m.enabled != c.enabled
    ||| m.status@ != c.status@
    ||| opt_chars(m.last_error) != opt_chars(c.last_error)
}

/// `r` is `m` with the editable fields of `c`, saved at `now`.
pub open spec fn account_updated(m: Model, c: AccountChanges, now: UtcTime, r: Model) -> bool {
    let changed = account_changed(m, c);
    &&& r.id == m.id
    &&& r.token@ == m.token@
    &&& r.user_id == m.user_id
    &&& r.display_name@ == c.display_name@
    &&& r.email_address@ == c.email_address@
    &&& r.server@ == c.server@
    &&& r.username@ == c.username@
    &&& r.credentials@ == c.credentials@
    &&& r.enabled == c.enabled
    &&& r.status@ == c.status@
    &&& opt_chars(r.last_error) == opt_chars(c.last_error)
    &&& r.last_synced_at == m.last_synced_at
    &&& r.created_at == m.created_at
    &&& r.version == (if changed { m.version + 1 } else { m.version as int })
    &&& r.updated_at == (if changed { now } else { m.updated_at })
}

/// The status every new account starts in.
pub open spec fn initial_status() -> Seq<char> {
    "PendingFirstSync"@
}

impl AccountRepositoryAdapter {
    pub fn new() -> (r: Self) {
        AccountRepositoryAdapter
    }

    /// The row a new account is stored as: enabled, waiting for its first
    /// sync, with no error; storing it counts as its first change, so it
    /// holds version 1.
    pub fn new_row(
        &self,
        id: i64,
        token: String,
        user_id: i64,
        display_name: String,
        email_address: String,
        server: String,
        username: String,
        credentials: Vec<u8>,
        now: UtcTime,
    ) -> (r: Model)
        ensures
            r.id == id && r.token == token && r.user_id == user_id,
            r.display_name == display_name && r.email_address == email_address && r.server == server,
            r.username == username && r.credentials == credentials,
            r.enabled,
            r.status@ == initial_status(),
            r.last_error is None && r.last_synced_at is None,
            r.version == 1,
            r.created_at == now && r.updated_at == now,
    {
        let (version, updated_at) = saved_stamp(0, now, true, now);
        Model {
            id,
            version,
            token,
            user_id,
            display_name,
            email_address,
            server,
            username,
            credentials,
            enabled: true,
            status: String::from_str("PendingFirstSync"),
            last_error: None,
            last_synced_at: None,
            created_at: now,
            updated_at,
        }
    }

    /// The row an edit leaves, when the caller read version
    /// `expected_version`; a stale version is refused as a conflict.
    pub fn updated_row(&self, existing: &Model, expected_version: u64, changes: &AccountChanges, now: UtcTime) -> (r:
        Result<Model, StoreError>)
        requires
            existing.version < i64::MAX,
        ensures
            existing.version != expected_version as i64 ==> r == Err::<Model, StoreError>(
                StoreError::Repository(crate::db_error::RepositoryError::Conflict),
            ),
            existing.version == expected_version as i64 ==> (r matches Ok(m) && account_updated(
                *existing,
                *changes,
                now,
                m,
            )),
    {
        if let Err(e) = check_version(existing.version, expected_version) {
            return Err(e);
        }
        let changed = !str_eq(existing.display_name.as_str(), changes.display_name.as_str()) || !str_eq(
            existing.email_address.as_str(),
            changes.email_address.as_str(),
        ) || !str_eq(existing.server.as_str(), changes.server.as_str()) || !str_eq(
            existing.username.as_str(),
            changes.username.as_str(),
        ) || !bytes_eq(&existing.credentials, &changes.credentials) || existing.enabled != changes.enabled
            || !str_eq(existing.status.as_str(), changes.status.as_str()) || !opt_str_eq(
            &existing.last_error,
            &changes.last_error,
        );
        let (version, updated_at) = saved_stamp(existing.version, existing.updated_at, changed, now);
        Ok(
            Model {
                id: existing.id,
                version,
                token: existing.token.clone(),
                user_id: existing.user_id,
                display_name: changes.display_name.clone(),
                email_address: changes.email_address.clone(),
                server: changes.server.clone(),
                username: changes.username.clone(),
                credentials: changes.credentials.clone(),
                enabled: changes.enabled,
                status: changes.status.clone(),
                last_error: clone_opt_string(&changes.last_error),
                last_synced_at: existing.last_synced_at,
                created_at: existing.created_at,
                updated_at,
            },
        )
    }

    /// The outcome of an edit of account `id`, given the row the store holds
    /// under that id (if any): an id of zero is refused, a missing row is
    /// not found, a stale version is a conflict, and otherwise the edited
    /// row is what gets saved.
    pub fn update_outcome(
        &self,
        id: u64,
        stored: Option<&Model>,
        expected_version: u64,
        changes: &AccountChanges,
        now: UtcTime,
    ) -> (r: Result<Model, StoreError>)
        requires
            stored matches Some(m) ==> m.version < i64::MAX,
        ensures
            id == 0 ==> r == Err::<Model, StoreError>(StoreError::InvalidId(id)),
            id != 0 && stored is None ==> r == Err::<Model, StoreError>(
                StoreError::Repository(crate::db_error::RepositoryError::NotFound),
            ),
            stored matches Some(m) ==> (id != 0 && m.version != expected_version as i64 ==> r == Err::<
                Model,
                StoreError,
            >(StoreError::Repository(crate::db_error::RepositoryError::Conflict))),
            stored matches Some(m) ==> (id != 0 && m.version == expected_version as i64 ==> (r matches Ok(b)
                && account_updated(*m, *changes, now, b))),
    {
        if let Err(e) = require_id(id) {
            return Err(e);
        }
        match stored {
            None => Err(StoreError::Repository(crate::db_error::RepositoryError::NotFound)),
            Some(m) => self.updated_row(m, expected_version, changes, now),
        }
    }

    /// The row after setting the status and the last error; setting them
    /// always counts as a change.
    pub fn with_status(&self, existing: &Model, status: String, last_error: Option<String>, now: UtcTime) -> (r:
        Model)
        requires
            existing.version < i64::MAX,
        ensures
            r.status == status && r.last_error == last_error,
            r.enabled == existing.enabled,
            same_identity(*existing, r),
            same_settings(*existing, r),
            r.version == existing.version + 1 && r.updated_at == now,
    {
        let mut r = copy_account(existing);
        r.status = status;
        r.last_error = last_error;
        r.version = existing.version + 1;
        r.updated_at = now;
        r
    }

    /// The row after switching the account on or off; setting the switch
    /// always counts as a change.
    pub fn with_enabled(&self, existing: &Model, enabled: bool, now: UtcTime) -> (r: Model)
        requires
            existing.version < i64::MAX,
        ensures
            r.enabled == enabled,
            r.status@ == existing.status@ && opt_chars(r.last_error) == opt_chars(existing.last_error),
            same_identity(*existing, r),
            same_settings(*existing, r),
            r.version == existing.version + 1 && r.updated_at == now,
    {
        let mut r = copy_account(existing);
        r.enabled = enabled;
        r.version = existing.version + 1;
        r.updated_at = now;
        r
    }

    /// A deletion applies only to the version the caller read.
    pub fn check_delete(&self, existing: &Model, expected_version: u64) -> (r: Result<(), StoreError>)
        ensures
            r == (if existing.version == expected_version as i64 {
                Ok(())
            } else {
                Err(StoreError::Repository(crate::db_error::RepositoryError::Conflict))
            }),
    {
        check_version(existing.version, expected_version)
    }
}

/// Identity and history fields agree.
pub open spec fn same_identity(a: Model, b: Model) -> bool {
    a.id == b.id && a.token@ == b.token@ && a.user_id == b.user_id && a.last_synced_at == b.last_synced_at
        && a.created_at == b.created_at
}

/// The connection settings agree.
pub open spec fn same_settings(a: Model, b: Model) -> bool {
    a.display_name@ == b.display_name@ && a.email_address@ == b.email_address@ && a.server@ == b.server@
        && a.username@ == b.username@ && a.credentials@ == b.credentials@
}

fn copy_account(m: &Model) -> (r: Model)
    ensures
        same_identity(*m, r),
        same_settings(*m, r),
        r.enabled == m.enabled,
        r.status@ == m.status@,
        opt_chars(r.last_error) == opt_chars(m.last_error),
        r.version == m.version,
        r.updated_at == m.updated_at,
{
    Model {
        id: m.id,
        version: m.version,
        token: m.token.clone(),
        user_id: m.user_id,
        display_name: m.display_name.clone(),
        email_address: m.email_address.clone(),
        server: m.server.clone(),
        username: m.username.clone(),
        credentials: m.credentials.clone(),
        enabled: m.enabled,
        status: m.status.clone(),
        last_error: clone_opt_string(&m.last_error),
        last_synced_at: m.last_synced_at,
        created_at: m.created_at,
        updated_at: m.updated_at,
    }
}

/// An edit with the version the caller read bumps the version exactly when
/// it changes something, and is refused with any other version.
pub proof fn lemma_update_versioning(m: Model, c: AccountChanges, now: UtcTime, r: Model)
    requires
        account_updated(m, c, now, r),
    ensures
        account_changed(m, c) <==> r.version == m.version + 1,
        !account_changed(m, c) <==> r.version == m.version,
{
}

} // verus!

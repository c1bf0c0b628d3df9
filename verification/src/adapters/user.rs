//! Users: what an edit does to a stored user, and the checks of listing and
//! deleting.

use vstd::prelude::*;

use crate::db_error::{check_version, require_id, RepositoryError, StoreError};
use crate::entities::saved_stamp;
use crate::entities::users::Model;
use crate::format::UtcTime;
use crate::text::str_eq;

verus! {

/// The users' storage adapter.
pub struct UserRepositoryAdapter;

/// The editable fields of a user, as the caller wants them (also the fields a
/// new user is created with).
#[derive(Clone, Debug, PartialEq)]
pub struct UserChanges {
    pub username: String,
    pub full_name: String,
    pub password_hash: String,
    pub email_address: String,
    /// The capability set as JSON text.
    pub capabilities: String,
    pub change_password_on_login: bool,
}

/// Some editable field differs from the stored row.
pub open spec fn user_changed(m: Model, c: UserChanges) -> bool {
    ||| m.username@ != c.username@
    ||| m.full_name@ != c.full_name@
    ||| m.password_hash@ != c.password_hash@
    ||| m.email_address@ != c.email_address@
    ||| m.capabilities@ != c.capabilities@
    ||| m.change_password_on_login != c.change_password_on_login
}

/// `r` is `m` with the editable fields of `c`, saved at `now`.
pub open spec fn user_updated(m: Model, c: UserChanges, now: UtcTime, r: Model) -> bool {
    let changed = user_changed(m, c);
    &&& r.id == m.id
    &&& r.token@ == m.token@
    &&& r.username@ == c.username@
    &&& r.full_name@ == c.full_name@
    &&& r.password_hash@ == c.password_hash@
    &&& r.email_address@ == c.email_address@
    &&& r.capabilities@ == c.capabilities@
    &&& r.change_password_on_login == c.change_password_on_login
    &&& r.created_at == m.created_at
    &&& r.version == (if changed { m.version + 1 } else { m.version as int })
    &&& r.updated_at == (if changed { now } else { m.updated_at })
}

impl UserRepositoryAdapter {
    pub fn new() -> (r: Self) {
        UserRepositoryAdapter
    }

    /// The row a new user is stored as: the fields asked for, under the given
    /// id and token, created at `now`; storing it counts as its first change,
    /// so it holds version 1.
    pub fn inserted_row(&self, id: i64, token: String, user: &UserChanges, now: UtcTime) -> (r: Model)
        ensures
            r.id == id && r.token == token,
            r.username@ == user.username@,
            r.full_name@ == user.full_name@,
            r.password_hash@ == user.password_hash@,
            r.email_address@ == user.email_address@,
            r.capabilities@ == user.capabilities@,
            r.change_password_on_login == user.change_password_on_login,
            r.version == 1,
            r.created_at == now && r.updated_at == now,
    {
        let (version, updated_at) = saved_stamp(0, now, true, now);
        Model {
            id,
            version,
            token,
            username: user.username.clone(),
            full_name: user.full_name.clone(),
            password_hash: user.password_hash.clone(),
            email_address: user.email_address.clone(),
            capabilities: user.capabilities.clone(),
            change_password_on_login: user.change_password_on_login,
            created_at: now,
            updated_at,
        }
    }

    /// The row an edit leaves, when the caller read version
    /// `expected_version`; a stale version is refused as a conflict.
    pub fn updated_row(&self, existing: &Model, expected_version: u64, changes: &UserChanges, now: UtcTime) -> (r:
        Result<Model, StoreError>)
        requires
            existing.version < i64::MAX,
        ensures
            existing.version != expected_version as i64 ==> r == Err::<Model, StoreError>(
                StoreError::Repository(RepositoryError::Conflict),
            ),
            existing.version == expected_version as i64 ==> (r matches Ok(m) && user_updated(
                *existing,
                *changes,
                now,
                m,
            )),
    {
        if let Err(e) = check_version(existing.version, expected_version) {
            return Err(e);
        }
        let changed = !str_eq(existing.username.as_str(), changes.username.as_str()) || !str_eq(
            existing.full_name.as_str(),
            changes.full_name.as_str(),
        ) || !str_eq(existing.password_hash.as_str(), changes.password_hash.as_str()) || !str_eq(
            existing.email_address.as_str(),
            changes.email_address.as_str(),
        ) || !str_eq(existing.capabilities.as_str(), changes.capabilities.as_str())
            || existing.change_password_on_login != changes.change_password_on_login;
        let (version, updated_at) = saved_stamp(existing.version, existing.updated_at, changed, now);
        Ok(
            Model {
                id: existing.id,
                version,
                token: existing.token.clone(),
                username: changes.username.clone(),
                full_name: changes.full_name.clone(),
                password_hash: changes.password_hash.clone(),
                email_address: changes.email_address.clone(),
                capabilities: changes.capabilities.clone(),
                change_password_on_login: changes.change_password_on_login,
                created_at: existing.created_at,
                updated_at,
            },
        )
    }

    /// The outcome of an edit of user `id`, given the row the store holds
    /// under that id (if any): an id of zero is refused, a missing row is not
    /// found, a stale version is a conflict, and otherwise the edited row is
    /// what gets saved.
    pub fn update_outcome(
        &self,
        id: u64,
        stored: Option<&Model>,
        expected_version: u64,
        changes: &UserChanges,
        now: UtcTime,
    ) -> (r: Result<Model, StoreError>)
        requires
            stored matches Some(m) ==> m.version < i64::MAX,
        ensures
            id == 0 ==> r == Err::<Model, StoreError>(StoreError::InvalidId(id)),
            id != 0 && stored is None ==> r == Err::<Model, StoreError>(StoreError::Repository(RepositoryError::NotFound)),
            stored matches Some(m) ==> (id != 0 && m.version != expected_version as i64 ==> r == Err::<
                Model,
                StoreError,
            >(StoreError::Repository(RepositoryError::Conflict))),
            stored matches Some(m) ==> (id != 0 && m.version == expected_version as i64 ==> (r matches Ok(b)
                && user_updated(*m, *changes, now, b))),
    {
        if let Err(e) = require_id(id) {
            return Err(e);
        }
        match stored {
            None => Err(StoreError::Repository(RepositoryError::NotFound)),
            Some(m) => self.updated_row(m, expected_version, changes, now),
        }
    }

    /// A deletion applies only to the version the caller read.
    pub fn check_delete(&self, existing: &Model, expected_version: u64) -> (r: Result<(), StoreError>)
        ensures
            r == (if existing.version == expected_version as i64 {
                Ok(())
            } else {
                Err(StoreError::Repository(RepositoryError::Conflict))
            }),
    {
        check_version(existing.version, expected_version)
    }

    /// A page of users holds at least one.
    pub fn check_page_size(&self, page_size: Option<u64>) -> (r: Result<(), StoreError>)
        ensures
            r == (match page_size {
                Some(n) if n < 1 => Err(StoreError::InvalidPageSize(n)),
                _ => Ok(()),
            }),
    {
        if let Some(n) = page_size {
            if n < 1 {
                return Err(StoreError::InvalidPageSize(n));
            }
        }
        Ok(())
    }
}

} // verus!

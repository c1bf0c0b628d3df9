//! Folders: the rows an account's folders are stored as, and what the
//! updates of a sync or a switch set in a stored row.

use vstd::prelude::*;

use crate::accounts::{special_use_name, special_use_to_string, SpecialUse};
use crate::db_error::{require_id, StoreError};
use crate::entities::folders::Model;
use crate::entities::saved_stamp;
use crate::format::UtcTime;
use crate::text::{clone_opt_string, opt_chars};

verus! {

/// The folders' storage adapter.
pub struct FolderRepositoryAdapter;

/// A folder found on the server, to be stored for an account.
#[derive(Clone, Debug)]
pub struct NewFolderRow {
    /// Id and token the row is stored under.
    pub id: i64,
    pub token: String,
    pub account_id: u64,
    pub path: String,
    pub display_name: String,
    pub special_use: Option<SpecialUse>,
    pub idle_enabled: bool,
    pub uidvalidity: Option<u32>,
}

/// The name a special use is stored under, if there is one.
pub open spec fn special_use_text(s: Option<SpecialUse>) -> Option<Seq<char>> {
    match s {
        Some(u) => Some(special_use_name(u)),
        None => None,
    }
}

/// The text of the refusal of a row that names another account.
pub open spec fn mismatch_message() -> Seq<char> {
    "NewFolderRow.account_id must match the create_many account_id"@
}

/// `r` is the row `row` is stored as: archived, never synced, with no error
/// and no UID fetched, created at `now`; storing it counts as its first
/// change, so it holds version 1.
pub open spec fn inserted(row: NewFolderRow, now: UtcTime, r: Model) -> bool {
    &&& r.id == row.id
    &&& r.version == 1
    &&& r.token@ == row.token@
    &&& r.account_id == row.account_id as i64
    &&& r.path@ == row.path@
    &&& r.display_name@ == row.display_name@
    &&& opt_chars(r.special_use) == special_use_text(row.special_use)
    &&& r.enabled
    &&& r.idle_enabled == row.idle_enabled
    &&& r.uidvalidity == (match row.uidvalidity {
        Some(v) => Some(v as i64),
        None => None,
    })
    &&& r.last_uid == 0
    &&& r.last_synced_at is None
    &&& r.last_error is None
    &&& r.created_at == now
    &&& r.updated_at == now
}

/// `r` keeps the identity, names, error and creation time of `m`.
pub open spec fn keeps_identity(m: Model, r: Model) -> bool {
    &&& r.id == m.id
    &&& r.token@ == m.token@
    &&& r.account_id == m.account_id
    &&& r.path@ == m.path@
    &&& r.display_name@ == m.display_name@
    &&& opt_chars(r.special_use) == opt_chars(m.special_use)
    &&& opt_chars(r.last_error) == opt_chars(m.last_error)
    &&& r.created_at == m.created_at
}

/// `r` is saved as a change of `m` at `now`: one version on, stamped `now`.
pub open spec fn saved_change(m: Model, now: UtcTime, r: Model) -> bool {
    r.version == m.version + 1 && r.updated_at == now
}

/// `existing` with the given switches and sync state, saved as a change at
/// `now`.
fn copy_with(
    existing: &Model,
    now: UtcTime,
    enabled: bool,
    idle_enabled: bool,
    uidvalidity: Option<i64>,
    last_uid: i64,
    last_synced_at: Option<UtcTime>,
) -> (r: Model)
    requires
        existing.version < i64::MAX,
    ensures
        keeps_identity(*existing, r),
        saved_change(*existing, now, r),
        r.enabled == enabled && r.idle_enabled == idle_enabled,
        r.uidvalidity == uidvalidity && r.last_uid == last_uid && r.last_synced_at == last_synced_at,
{
    let (version, updated_at) = saved_stamp(existing.version, existing.updated_at, true, now);
    Model {
        id: existing.id,
        version,
        token: existing.token.clone(),
        account_id: existing.account_id,
        path: existing.path.clone(),
        display_name: existing.display_name.clone(),
        special_use: clone_opt_string(&existing.special_use),
        enabled,
        idle_enabled,
        uidvalidity,
        last_uid,
        last_synced_at,
        last_error: clone_opt_string(&existing.last_error),
        created_at: existing.created_at,
        updated_at,
    }
}

impl FolderRepositoryAdapter {
    pub fn new() -> (r: Self) {
        FolderRepositoryAdapter
    }

    /// Every folder stored in one call belongs to the account it is stored
    /// for.
    pub fn check_row_account(&self, account_id: u64, row_account_id: u64) -> (r: Result<(), StoreError>)
        ensures
            row_account_id == account_id ==> r is Ok,
            row_account_id != account_id ==> (r matches Err(StoreError::Validation(m)) && m@ == mismatch_message()),
    {
        if row_account_id != account_id {
            return Err(
                StoreError::Validation(String::from_str("NewFolderRow.account_id must match the create_many account_id")),
            );
        }
        Ok(())
    }

    /// The row one new folder is stored as.
    pub fn inserted_row(&self, row: &NewFolderRow, now: UtcTime) -> (r: Model)
        ensures
            inserted(*row, now, r),
    {
        let uidvalidity = match row.uidvalidity {
            Some(v) => Some(v as i64),
            None => None,
        };
        let (version, updated_at) = saved_stamp(0, now, true, now);
        Model {
            id: row.id,
            version,
            token: row.token.clone(),
            account_id: row.account_id as i64,
            path: row.path.clone(),
            display_name: row.display_name.clone(),
            special_use: special_use_to_string(row.special_use),
            enabled: true,
            idle_enabled: row.idle_enabled,
            uidvalidity,
            last_uid: 0,
            last_synced_at: None,
            last_error: None,
            created_at: now,
            updated_at,
        }
    }

    /// The rows a batch of new folders of one account is stored as, in
    /// order; the whole batch is refused for an account id of zero, or for a
    /// row that names another account.
    pub fn inserted_rows(&self, account_id: u64, rows: &Vec<NewFolderRow>, now: UtcTime) -> (r: Result<
        Vec<Model>,
        StoreError,
    >)
        ensures
            account_id == 0 ==> r == Err::<Vec<Model>, StoreError>(StoreError::InvalidId(account_id)),
            account_id != 0 && (exists|i: int| 0 <= i < rows@.len() && #[trigger] rows@[i].account_id != account_id)
                ==> (r matches Err(StoreError::Validation(m)) && m@ == mismatch_message()),
            account_id != 0 && (forall|i: int| 0 <= i < rows@.len() ==> #[trigger] rows@[i].account_id == account_id)
                ==> (r matches Ok(v) && v@.len() == rows@.len() && forall|i: int|
                0 <= i < rows@.len() ==> inserted(rows@[i], now, #[trigger] v@[i])),
    {
        if let Err(e) = require_id(account_id) {
            return Err(e);
        }
        let mut out: Vec<Model> = Vec::new();
        let mut i: usize = 0;
        while i < rows.len()
            invariant
                i <= rows@.len(),
                account_id != 0,
                out@.len() == i,
                forall|j: int| 0 <= j < i ==> rows@[j].account_id == account_id,
                forall|j: int| 0 <= j < i ==> inserted(rows@[j], now, #[trigger] out@[j]),
            decreases rows@.len() - i,
        {
            let row = &rows[i];
            if let Err(e) = self.check_row_account(account_id, row.account_id) {
                return Err(e);
            }
            let m = self.inserted_row(row, now);
            out.push(m);
            i = i + 1;
        }
        Ok(out)
    }

    /// The row a sync leaves: the folder's UID validity, highest fetched UID
    /// and sync time are set, the rest is kept; setting them always counts as
    /// a change, saved at `now`.
    pub fn synced_row(
        &self,
        existing: &Model,
        uidvalidity: u32,
        last_uid: u32,
        last_synced_at: UtcTime,
        now: UtcTime,
    ) -> (r: Model)
        requires
            existing.version < i64::MAX,
        ensures
            keeps_identity(*existing, r),
            saved_change(*existing, now, r),
            r.enabled == existing.enabled && r.idle_enabled == existing.idle_enabled,
            r.uidvalidity == Some(uidvalidity as i64),
            r.last_uid == last_uid as i64,
            r.last_synced_at == Some(last_synced_at),
    {
        let validity = Some(uidvalidity as i64);
        let synced = Some(last_synced_at);
        copy_with(existing, now, existing.enabled, existing.idle_enabled, validity, last_uid as i64, synced)
    }

    /// The row left by switching whether the folder is archived; setting the
    /// switch always counts as a change, saved at `now`.
    pub fn with_enabled(&self, existing: &Model, enabled: bool, now: UtcTime) -> (r: Model)
        requires
            existing.version < i64::MAX,
        ensures
            keeps_identity(*existing, r),
            saved_change(*existing, now, r),
            r.enabled == enabled && r.idle_enabled == existing.idle_enabled,
            r.uidvalidity == existing.uidvalidity && r.last_uid == existing.last_uid,
            r.last_synced_at == existing.last_synced_at,
    {
        copy_with(
            existing,
            now,
            enabled,
            existing.idle_enabled,
            existing.uidvalidity,
            existing.last_uid,
            existing.last_synced_at,
        )
    }

    /// The row left by switching whether the folder is watched with IDLE;
    /// setting the switch always counts as a change, saved at `now`.
    pub fn with_idle_enabled(&self, existing: &Model, idle_enabled: bool, now: UtcTime) -> (r: Model)
        requires
            existing.version < i64::MAX,
        ensures
            keeps_identity(*existing, r),
            saved_change(*existing, now, r),
            r.idle_enabled == idle_enabled && r.enabled == existing.enabled,
            r.uidvalidity == existing.uidvalidity && r.last_uid == existing.last_uid,
            r.last_synced_at == existing.last_synced_at,
    {
        copy_with(
            existing,
            now,
            existing.enabled,
            idle_enabled,
            existing.uidvalidity,
            existing.last_uid,
            existing.last_synced_at,
        )
    }
}

} // verus!

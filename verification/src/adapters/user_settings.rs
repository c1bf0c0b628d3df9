//! Per-user settings: one value per user and key, written by an upsert.

use vstd::prelude::*;

use crate::entities::user_settings::Model;
use crate::format::UtcTime;

verus! {

/// The settings' storage adapter.
pub struct UserSettingRepositoryAdapter;

/// A value to store under a user's key.
#[derive(Clone, Debug, PartialEq)]
pub struct NewUserSetting {
    pub user_id: u64,
    pub key: String,
    pub value: String,
}

impl UserSettingRepositoryAdapter {
    pub fn new() -> (r: Self) {
        UserSettingRepositoryAdapter
    }

    /// The row a write leaves, given the row stored under the same user and
    /// key, if any: a new row is created at `now`; a stored one takes the
    /// new value and change time and keeps its creation time.
    pub fn stored_row(&self, existing: Option<&Model>, setting: &NewUserSetting, now: UtcTime) -> (r: Model)
        requires
            existing matches Some(m) ==> m.user_id == setting.user_id as i64 && m.key@ == setting.key@,
        ensures
            r.user_id == setting.user_id as i64,
            r.key@ == setting.key@,
            r.value@ == setting.value@,
            r.updated_at == now,
            r.created_at == (match existing {
                Some(m) => m.created_at,
                None => now,
            }),
    {
        let created_at = match existing {
            Some(m) => m.created_at,
            None => now,
        };
        Model {
            user_id: setting.user_id as i64,
            key: setting.key.clone(),
            value: setting.value.clone(),
            created_at,
            updated_at: now,
        }
    }
}

} // verus!

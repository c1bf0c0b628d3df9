//! The `user_settings` table: one value per user and key.

use vstd::prelude::*;

use crate::format::UtcTime;

verus! {

/// One stored setting.
#[derive(Clone, Debug, PartialEq)]
pub struct Model {
    pub user_id: i64,
    pub key: String,
    pub value: String,
    pub created_at: UtcTime,
    pub updated_at: UtcTime,
}

} // verus!

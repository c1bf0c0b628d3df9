//! The stored rows, and the bookkeeping every save does.

use vstd::prelude::*;

use crate::format::UtcTime;

pub mod accounts;
pub mod folders;
pub mod jobs;
pub mod message_locations;
pub mod message_attachments;
pub mod messages;
pub mod user_settings;
pub mod users;

verus! {

/// The version and change time a row is saved with: a save that changes
/// anything bumps the version and stamps the time; one that changes nothing
/// keeps both.
pub fn saved_stamp(version: i64, updated_at: UtcTime, changed: bool, now: UtcTime) -> (r: (i64, UtcTime))
    requires
        version < i64::MAX,
    ensures
        changed ==> r.0 == version + 1 && r.1 == now,
        !changed ==> r == (version, updated_at),
{
    if changed {
        (version + 1, now)
    } else {
        (version, updated_at)
    }
}

} // verus!

//! The storage adapters' own rules: the checks they make before touching
//! the database, and the rows their writes leave.

pub mod jobs;
pub mod account;
pub mod folder;
pub mod message;
pub mod message_attachment;
pub mod user;
pub mod user_settings;
pub mod message_location;
pub mod stats;

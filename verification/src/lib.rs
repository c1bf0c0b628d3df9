//! Verified core logic of the MailKeep web archive.

use vstd::prelude::*;

pub mod accounts;
pub mod adapters;
pub mod binary64;
pub mod config;
pub mod db_error;
pub mod entities;
pub mod error;
pub mod folder_tree;
pub mod format;
pub mod forms;
pub mod paging;
pub mod password;
pub mod search;
pub mod search_bar;
pub mod session;
pub mod settings;
pub mod text;
pub mod theme;
pub mod users;
pub mod viewer;

verus! {

} // verus!

//! The settings page: its rows and how they are found, its accounts, its dialogs.

pub mod accounts;
pub mod page;
pub mod rows;
pub mod scrobble;
pub mod search;
pub mod sleep;
pub mod slots;
pub mod typefaces;

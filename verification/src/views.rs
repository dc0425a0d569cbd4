//! What the screens show and what a press on them does.

pub mod about;
pub mod artist;
pub mod cards;
pub mod chrome;
pub mod folder;
pub mod fullscreen;
pub mod history;
pub mod library;
pub mod login;
pub mod menus;
pub mod picks;
pub mod player_bar;
pub mod popups;
pub mod powerbar;
pub mod settings;
pub mod sign_in;
pub mod tools;
pub mod transport;
pub mod trouble;
pub mod visuals;

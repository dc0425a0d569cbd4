//! The logic behind a music client: what its screens decide, how its sign-in window finds the end
//! of a sign-in, and how protected streams are read.
//!
//! - [`webview`] follows a sign-in window until its cookies prove a session.
//! - [`widevine`] finds the module that decrypts, writes the data it starts from, and reads where
//!   every encrypted sample of a stream is.
//! - [`views`] holds what the screens show and what a press does, without drawing anything.
//! - [`text`], [`bytes`] and [`lists`] are what the rest is built of, and [`platform`] names the
//!   machines it runs on.
//!
//! Nothing here reads a file, opens a window or asks the environment: what the machine says comes
//! in as plain values.

pub mod bytes;
pub mod lists;
pub mod platform;
pub mod text;
pub mod views;
pub mod webview;
pub mod widevine;

//! A verified core for a cloud file-sync client built on rclone: the text
//! handling of rclone configuration files, the JSON requests sent to rclone,
//! the interpretation of its replies, and the tray icon state.

pub mod json;
pub mod login;
pub mod rclone;
pub mod text;
pub mod tray;

//! Short-lived, single-use download tokens for journal attachments.
//!
//! A token stands for one file on disk without naming its path. Tokens are
//! grouped into sessions by a caller-chosen client identifier; a session
//! carries the expiry deadline of all its tokens.

pub mod error;
pub mod guarantees;
pub mod helpers;
pub mod listing;
pub mod models;
pub mod store;
pub mod table;
pub mod text;
pub mod time;
pub mod token;
pub mod upload;

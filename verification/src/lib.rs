//! Session and address-book cache for a small authentication backend.
//!
//! The crate holds the logic of the backend as plain state and plain values:
//! opaque bearer tokens, the guards that turn a request's credentials into an
//! authenticated identity, and the cache of live sessions and per-user
//! address books with its write-back bookkeeping.  Reading requests, talking
//! to the durable store and telling the time are left to the caller.

pub mod address_book;
pub mod api;
pub mod bearer;
pub mod clock;
pub mod database;
pub mod laws;
pub mod model;
pub mod password;
pub mod state;
pub mod text;
pub mod token_table;
pub mod tokens;
pub mod types;
pub mod ui;

//! Manages saved login sessions ("accounts") for a locally installed game.
//!
//! The crate models the account store as explicit in-memory state: an ordered
//! index of account records plus the contents of the backup directories and of
//! the game's live credential files. Every operation on that state is verified;
//! the thin shell that mirrors the state to a real filesystem lives outside the
//! library.

pub mod bytes;
pub mod datadir;
pub mod fingerprint;
pub mod guard;
pub mod store;

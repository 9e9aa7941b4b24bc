//! A verified rules engine for one deal of the card game Skat.
//!
//! The crate owns the authoritative game state of a single deal: it
//! enumerates and validates legal actions, applies them, resolves the
//! bidding, checks a declared contract against the accepted bid, scores the
//! finished deal, and can redact the state down to what a given observer
//! legitimately knows.  Hosting concerns (plugin lifecycle, I/O,
//! presentation of whole states) live outside this crate.

pub mod cards;
pub mod bidding;
pub mod codec;
pub mod decl;
pub mod error;
pub mod game;
pub mod store;
pub mod text;
pub mod trick;

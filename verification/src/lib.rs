//! An in-memory contact list: an append-only store of contact records with
//! insertion-order listing and case-sensitive substring search.
pub mod contact;
pub mod store;
pub mod text;

//! The record store, the lifecycle engine built on it, and their data types.

pub mod identity;
pub mod index;
pub mod invariants;
pub mod laws;
pub mod mock;
pub mod handlers;
pub mod store;
pub mod text;
pub mod types;

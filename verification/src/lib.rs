//! Verified core of Baibo, a local-first workspace for terminal coding agents.
//!
//! The crate holds the domain model, the registry and session bookkeeping rules,
//! the terminal lifecycle decisions and the provider-detection logic. Process,
//! PTY, SQLite and desktop-shell plumbing live outside this crate and hand plain
//! values to the functions here.
pub mod adapters;
pub mod domain;
pub mod paths;
pub mod persistence;
pub mod services;
pub mod text;

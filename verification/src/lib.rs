//! Core of a decentralized-storage client: deterministic identity and key
//! derivation, encrypted account persistence, and a mock vault backend that
//! enforces optimistic-concurrency updates over per-application authorization
//! grants and a coin ledger, reached through a connection manager that
//! supports request/response interception.

pub mod account;
pub mod auth;
pub mod client_keys;
pub mod connection_manager;
pub mod crypto;
pub mod errors;
pub mod ipc;
pub mod kdf;
pub mod ledger;
pub mod messages;
pub mod types;
pub mod vault;

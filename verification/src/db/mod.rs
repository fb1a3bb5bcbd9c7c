//! The local roster: how cloud metadata and `.vortex` imports merge into it,
//! and how hosts, secrets and settings are encoded for the database.
pub mod merge;
pub mod settings;
pub mod store;

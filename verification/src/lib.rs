//! Vortex GUI core: the host roster, cloud merge rules, `.vortex` sealing,
//! URL and launcher configuration, and the protocol decisions of the desktop
//! client, each stated as a contract and proved.
pub mod text;
pub mod config;
pub mod error;
pub mod crypto;
pub mod models;
pub mod db;
pub mod api;
pub mod discover;
pub mod ssh;
pub mod commands;
pub mod master_key;

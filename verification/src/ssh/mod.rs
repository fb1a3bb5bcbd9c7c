//! SSH: launching the system client, the Vortex proxy handshake, SFTP
//! listings, interactive authentication input, and session parameters.
pub mod system;
pub mod proxy;
pub mod sftp;
pub mod auth;
pub mod session;

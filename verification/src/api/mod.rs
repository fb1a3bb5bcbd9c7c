//! What the client exchanges with Vortex Core and Vortex Web.
pub mod json;
pub mod urls;
pub mod client;
pub mod tags;
pub mod browser;
pub mod billing;

//! The per-machine agent: resource reporting, container sessions, terminal
//! bridging and the link to the hub.
pub mod types;
pub mod gpu;
pub mod resources;
pub mod sessions;
pub mod terminal;
pub mod hub_link;
pub mod config;

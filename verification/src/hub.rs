//! The hub: registry of agents, scheduling of sessions onto them, and the
//! record of what runs where.
pub mod types;
pub mod registry;
pub mod auth;
pub mod sessions;
pub mod config;

//! Verified core of a small compute platform: per-machine agents that report
//! resources and run container sessions, and a hub that keeps a registry of
//! agents, schedules sessions onto them and keeps track of what runs where.
pub mod text;
pub mod numbers;
pub mod time;
pub mod keyed;
pub mod error;
pub mod order;
pub mod agent;
pub mod hub;

//! Collection and caching core of a live telemetry server: a registry of
//! nodes, a cache of each node's latest measurement, per-node admission
//! gates, the polling scheduler's decisions, and the read interface.

pub mod api;
pub mod cache;
pub mod config;
pub mod data;
pub mod gate;
pub mod ident;
pub mod poll;
pub mod registry;
pub mod scheduler;
pub mod shutdown;
pub mod table;

//! Keeps a disruption budget's eviction allowance in step with a game
//! server's occupancy: evictions are blocked while enough players are online
//! and allowed once the server is empty.
//!
//! `config` checks the startup settings, `policy` decides the has-players
//! condition of a probe, `reconcile` decides each cycle's write and commits
//! it only once it is confirmed, and `schedule` decides between another cycle
//! and shutdown.

pub mod config;
pub mod policy;
pub mod reconcile;
pub mod schedule;

//! Race tracking for competing slot feeds: the ledger of per-slot races, the
//! statistics drawn from it, and the decisions of the stream runners that
//! feed it.

pub mod client;
pub mod config;
pub mod handlers;
pub mod laws;
pub mod ledger;
pub mod metrics;
pub mod referee;
pub mod retry;
pub mod runner;
pub mod stats;
pub mod subscription;

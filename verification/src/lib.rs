//! Decision logic of a PostgreSQL high-availability agent.
//!
//! Every function here is verified against the contract in its header, except those that are marked
//! `external_body`: they make one call into another crate or the standard library each, and their
//! contracts say what is relied on without proof. Network, process and file access live outside the
//! library and hand it plain values.

pub mod api;
pub mod auth;
pub mod bootstrap;
pub mod callbacks;
pub mod cascading;
pub mod clock;
pub mod cluster;
pub mod commands;
pub mod config;
pub mod connstr;
pub mod cycle;
pub mod dynamic_config;
pub mod election;
pub mod error;
pub mod failsafe;
pub mod ha;
pub mod history;
pub mod identity;
pub mod json;
pub mod letters;
pub mod log_file;
pub mod management;
pub mod operations;
pub mod postgresql;
pub mod proxy;
pub mod raft_dcs;
pub mod raft_log;
pub mod report;
pub mod schedule;
pub mod slots;
pub mod standby_cluster;
pub mod state_machine;
pub mod store;
pub mod strip;
pub mod strmap;
pub mod sync;
pub mod text;
pub mod wal;
pub mod watchdog;

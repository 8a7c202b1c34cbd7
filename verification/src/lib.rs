//! A process manager for midnight-node that switches node binaries at chain
//! upgrades.
//!
//! Nothing on chain tells a node when to swap its binary. An operator registers
//! upgrade plans; the supervisor watches the node over JSON-RPC and switches
//! once a plan's trigger (a block height, a runtime `spec_version`, or both) is
//! reached. This crate holds the decisions. Files, processes, sockets and clocks
//! are the business of the program around it.

pub mod backup;
pub mod commands;
pub mod config;
pub mod download;
pub mod json;
pub mod laws;
pub mod layout;
pub mod path;
pub mod plan;
pub mod rpc;
pub mod state;
pub mod supervisor;
pub mod text;
pub mod time;

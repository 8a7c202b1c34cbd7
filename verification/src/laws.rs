//! What the operations of this crate promise as a whole.
//!
//! The contracts of the functions say what each of them returns. The proof functions here
//! say what that comes to for an operator: how results relate to what was asked for, to
//! each other, and to what happened before.

pub mod calls;
pub mod commands;
pub mod config;
pub mod download;
pub mod effects;
pub mod files;
pub mod plan;
pub mod rpc;
pub mod run;
pub mod text;
pub mod time;
pub mod values;

//! The client transport of a monitor daemon, and the text rules of the
//! configuration files around it.

pub mod branches;
pub mod commands;
pub mod config;
pub mod config_store;
pub mod diff;
pub mod files;
pub mod framing;
pub mod git;
pub mod guarantees;
pub mod json;
pub mod rpc;
pub mod session;
pub mod settings;
pub mod status;
pub mod text;
pub mod toml_value;

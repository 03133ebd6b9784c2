//! Verified core of the microsandbox (`msb`) backend.

pub mod boot;
pub mod broker;
pub mod candidates;
pub mod checkpoint;
pub mod classify;
pub mod commands;
pub mod drain;
pub mod exec_tunnel;
pub mod links;
pub mod ls_json;
pub mod message_laws;
pub mod messages;
pub mod model;
pub mod platform;
pub mod process;
pub mod provider;
pub mod provisioner;
pub mod refs;
pub mod registry;
pub mod text;

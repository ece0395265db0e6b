//! The verified core of a plugin-hosted agent.
use vstd::prelude::*;

pub mod approval;
pub mod bytes;
pub mod chat;
pub mod compaction;
pub mod creation;
pub mod error;
pub mod guest;
pub mod host;
pub mod json;
pub mod laws;
pub mod outline;
pub mod patch;
pub mod prompt;
pub mod registry;
pub mod paths;
pub mod plugins;
pub mod protocol;
pub mod roster;
pub mod session;
pub mod text;
pub mod tool_schema;
pub mod toolbox;
pub mod web;
pub mod workspace;
pub mod workspace_store;
pub mod tools;

verus! {
} // verus!

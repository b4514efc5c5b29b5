//! Verified core logic of the clawhive agent runtime.
use vstd::prelude::*;

pub mod text;
pub mod url;
pub mod router;
pub mod paths;
pub mod config;
pub mod policy;
pub mod clock;
pub mod slash_commands;
pub mod access_gate;
pub mod context;
pub mod persona;
pub mod tool;
pub mod schedule;
pub mod audit;
pub mod session;
pub mod language;
pub mod shell;
pub mod skill;
pub mod gateway;
pub mod keyed;
pub mod ids;
pub mod sorted;
pub mod orchestrator;
pub mod tool_loop;
pub mod subagent;
pub mod memory;
pub mod config_env;
pub mod reminders;
pub mod skill_state;

verus! {
} // verus!

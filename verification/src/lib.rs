//! Recursor: focus-orchestration core for an editor's agent lifecycle hooks.
//!
//! The library holds the conversation-keyed state table, the focus-decision
//! policies, and the per-event orchestration logic, all with verified
//! contracts. Platform window control, process spawning and file persistence
//! live outside the library and exchange plain values with it.

pub mod allowlist;
pub mod clock;
pub mod config;
pub mod hooks;
pub mod orchestrate;
pub mod parse;
pub mod policy;
pub mod state;
pub mod strutil;
pub mod window;

use vstd::prelude::*;

verus! {

/// Seconds after which a remembered conversation entry counts as stale.
pub const STALE_AFTER_SECONDS: u64 = 3600;

/// Default delay, in seconds, before the shell failsafe re-checks a
/// pending command.
pub const SHELL_FAILSAFE_DELAY_SECONDS: u64 = 5;

} // verus!

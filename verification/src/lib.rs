//! Turn-order engine and mode state machine for running tabletop combat
//! encounters: participants roll initiative, the rolls become an ordered list
//! of combat turns, and a small state machine walks the application through
//! its splash screen, the running encounter and the farewell screen.

use vstd::prelude::*;

pub mod app;
pub mod commands;
pub mod turn_order;

verus! {

/// How many ticks the driving loop performs per second.
pub const FRAMES_PER_SECOND: u64 = 24;

} // verus!

//! Verified core of the Scrimora Link desktop companion.
use vstd::prelude::*;

pub mod app_state;
pub mod bindings;
pub mod bridge;
pub mod clock;
pub mod config;
pub mod deep_link;
pub mod lcu;
pub mod lockfile;
pub mod messages;
pub mod seq_facts;
pub mod telemetry;
pub mod text;

verus! {
} // verus!

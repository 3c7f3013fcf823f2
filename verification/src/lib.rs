//! Rate-limit-aware scheduling of work units ("beads") across several
//! execution backends ("providers"), each with a replenishing capacity
//! window ("tank"). Beads carry priorities, typed tasks, and dependency
//! lists; convoys group beads and derive aggregate progress from member
//! statuses.
//!
//! All state mutation goes through plain sequential functions, meant to
//! be driven by a single writer: completions and failures reported by
//! concurrent executors are applied through the same path as dispatch,
//! so a tank is never charged and refunded concurrently. Convoy
//! aggregates are recomputed from bead state on demand and never stored.

pub mod bead;
mod clock;
pub mod config;
pub mod convoy;
pub mod error;
pub mod graph;
pub mod provider;
pub mod sched;
pub mod tank;
pub mod text;

pub use bead::{Bead, BeadId, BeadStatus, Priority, TaskType};
pub use convoy::{Convoy, ConvoyId, ConvoyStatus};
pub use error::RigsError;
pub use provider::{Provider, ProviderConfig, ProviderLimits};
pub use tank::{Tank, TankHealth};

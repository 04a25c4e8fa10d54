//! Native GitHub stacks: registration planning, merge planning, unstacking and
//! merged-layer bookkeeping, with the decisions proved against their specifications.

pub mod analyze;
pub mod text;
pub mod types;
pub mod error;
mod lemmas;
pub mod merge;
pub mod plan;
pub mod sync_merged;
pub mod tracking;
pub mod stack_register;
pub mod stacks;
pub mod unstack;

pub use vstd::hash_map::StringHashMap;

//! Planning and bookkeeping for the check and apply phases.

pub mod evaluator;
pub mod executor;
pub mod plan;
pub mod targeting;

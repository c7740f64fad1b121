//! A continuous build agent's core: change detection against persisted
//! build records, the per-repository build pipeline as a state machine, and
//! the orchestrator that drives candidates through it one at a time.

pub mod candidate;
pub mod store;
pub mod pipeline;
pub mod orchestrator;

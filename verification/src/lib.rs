//! A local-first research loop: the agent state machine, the scratchpad and
//! the document store, the ranking of local search results, and the offline
//! network policy that guards every tool adapter.
pub mod agent;
pub mod text;
pub mod sorting;
pub mod config;
pub mod runtime;
pub mod telemetry;
pub mod tools;
pub mod doctor;
pub mod memory;

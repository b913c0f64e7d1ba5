//! Orchestration core for a catalog of specialized agents: an agent
//! registry, a deterministic prompt builder, an AI routing policy with
//! retry and fallback, and a phased workflow execution engine.

pub mod agents;
pub mod errors;
pub mod invocation;
pub mod numeral;
pub mod prompt;
pub mod router;
pub mod workflows;

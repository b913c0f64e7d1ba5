//! The error taxonomy of the orchestration core. Every failure a public
//! operation can report is one of these variants; nothing escapes as an
//! unstructured error.

use vstd::prelude::*;

verus! {

/// Every failure mode of the orchestration core.
///
/// Per-agent generation failures inside a workflow phase are absorbed into
/// the phase output and never surface here; these variants are what the
/// public operations themselves return.
#[derive(Debug)]
pub enum OrchestratorError {
    /// An agent id unknown to the registry; a normal, recoverable outcome.
    AgentNotFound { agent_id: String },
    /// A workflow id unknown to the engine; a normal, recoverable outcome.
    WorkflowNotFound { workflow_id: String },
    /// A generation call exhausted every retry and every fallback provider;
    /// carries the last underlying cause.
    Generation { last_cause: String },
    /// Every agent of one phase failed, so no context remained to feed
    /// forward and the workflow was aborted.
    PhaseFailed { phase_index: usize },
    /// The agent catalog was unusable at load time: fatal at startup only.
    RegistryLoad { reason: String },
    /// A workflow definition broke an invariant at registration time
    /// (no phase, an empty phase, an unknown agent id, a duplicate id).
    WorkflowConfig { workflow_id: String },
    /// The persistence collaborator failed; surfaced to the caller beside
    /// any successfully generated result, never in place of it.
    Storage { reason: String },
}

impl OrchestratorError {
    /// A short, fixed name for the variant, for reporting.
    pub fn kind(&self) -> (r: &'static str)
        ensures
            r@ == match self {
                OrchestratorError::AgentNotFound { .. } => "agent not found"@,
                OrchestratorError::WorkflowNotFound { .. } => "workflow not found"@,
                OrchestratorError::Generation { .. } => "generation failed"@,
                OrchestratorError::PhaseFailed { .. } => "phase failed"@,
                OrchestratorError::RegistryLoad { .. } => "registry load failed"@,
                OrchestratorError::WorkflowConfig { .. } => "invalid workflow definition"@,
                OrchestratorError::Storage { .. } => "storage failed"@,
            },
    {
        match self {
            OrchestratorError::AgentNotFound { .. } => "agent not found",
            OrchestratorError::WorkflowNotFound { .. } => "workflow not found",
            OrchestratorError::Generation { .. } => "generation failed",
            OrchestratorError::PhaseFailed { .. } => "phase failed",
            OrchestratorError::RegistryLoad { .. } => "registry load failed",
            OrchestratorError::WorkflowConfig { .. } => "invalid workflow definition",
            OrchestratorError::Storage { .. } => "storage failed",
        }
    }
}

} // verus!

//! The single-agent invocation path: resolve the agent, build its prompt,
//! and record the finished call. The generation call itself is the
//! runtime's (see the routing layer); here stand the pure steps around it
//! and the environment-facing helpers for fresh ids and timestamps.

use vstd::prelude::*;
use crate::agents::Agent;
use crate::agents::AgentRegistry;
use crate::agents::find_agent;
use crate::errors::OrchestratorError;
use crate::prompt::ContextEntry;
use crate::prompt::build_agent_prompt;
use crate::prompt::prompt_text;

verus! {

/// The immutable record of one finished invocation. The agent's identity
/// fields are snapshotted at call time, so later registry edits never
/// change historical records.
pub struct AgentInvocationResult {
    pub id: String,
    pub agent: String,
    pub agent_id: String,
    pub specialty: String,
    pub response: String,
    pub execution_time_ms: i64,
    pub timestamp: String,
}

/// A stored prompt: name, content and tags, under a fresh id.
pub struct PromptRecord {
    pub id: String,
    pub name: String,
    pub content: String,
    pub tags: Vec<String>,
    pub created_at: String,
}

/// An invocation resolved and ready for generation.
pub struct PreparedInvocation {
    pub agent: Agent,
    pub prompt: String,
}

/// Relies on uuid::Uuid::new_v4 and uuid's Display impl: a fresh random
/// version-4 UUID, written in the hyphenated lowercase form of exactly 36
/// characters. The value is random; only its length is promised.
#[verifier::external_body]
pub(crate) fn new_invocation_id() -> (r: String)
    ensures
        r@.len() == 36,
{
    uuid::Uuid::new_v4().to_string()
}

/// Relies on chrono's Utc::now and DateTime::to_rfc3339: the current time
/// written in RFC 3339 form, never empty. The value depends on the clock.
#[verifier::external_body]
pub(crate) fn now_rfc3339() -> (r: String)
    ensures
        r@.len() > 0,
{
    chrono::Utc::now().to_rfc3339()
}

/// The duration between two clock readings, clamped to zero when the clock
/// went backwards and when the difference cannot be represented.
pub open spec fn elapsed_ms(started: int, finished: int) -> int {
    if started <= finished && finished - started <= i64::MAX {
        finished - started
    } else {
        0
    }
}

/// Computes `elapsed_ms` on machine integers.
pub fn elapsed_duration_ms(started: i64, finished: i64) -> (r: i64)
    ensures
        r == elapsed_ms(started as int, finished as int),
{
    match finished.checked_sub(started) {
        Some(d) => if d >= 0 {
            d
        } else {
            0
        },
        None => 0,
    }
}

/// Resolves the agent and builds its prompt — everything that precedes the
/// generation call. An unknown agent id is a reported, recoverable outcome:
/// no prompt exists then, so no generation can be attempted for it.
pub fn prepare_invocation(
    registry: &AgentRegistry,
    agent_id: &String,
    task: &String,
    context: &Option<Vec<ContextEntry>>,
) -> (r: Result<PreparedInvocation, OrchestratorError>)
    ensures
        match r {
            Ok(p) => find_agent(registry@, agent_id@) == Some(p.agent) && p.prompt@ == prompt_text(
                p.agent,
                task@,
                match context {
                    Some(c) => Some(c@),
                    None => None,
                },
            ),
            Err(e) => e is AgentNotFound && find_agent(registry@, agent_id@) is None,
        },
{
    match registry.get_agent(agent_id) {
        Some(agent) => {
            let prompt = build_agent_prompt(
                &agent,
                task.as_str(),
                match context {
                    Some(c) => Some(c),
                    None => None,
                },
            );
            Ok(PreparedInvocation { agent, prompt })
        },
        None => Err(OrchestratorError::AgentNotFound { agent_id: agent_id.clone() }),
    }
}

/// Builds the immutable record of a finished invocation from the agent (its
/// identity fields are copied, never referenced), the generated response,
/// and the clock readings around the call.
pub fn complete_invocation(
    agent: &Agent,
    invocation_id: String,
    response: String,
    started_ms: i64,
    finished_ms: i64,
    timestamp: String,
) -> (r: AgentInvocationResult)
    ensures
        r.id == invocation_id,
        r.agent@ == agent.name@,
        r.agent_id@ == agent.id@,
        r.specialty@ == agent.specialty@,
        r.response == response,
        r.execution_time_ms == elapsed_ms(started_ms as int, finished_ms as int),
        r.timestamp == timestamp,
{
    AgentInvocationResult {
        id: invocation_id,
        agent: agent.name.clone(),
        agent_id: agent.id.clone(),
        specialty: agent.specialty.clone(),
        response,
        execution_time_ms: elapsed_duration_ms(started_ms, finished_ms),
        timestamp,
    }
}

/// The record of a finished invocation under a fresh id, stamped with the
/// present moment; everything else is as `complete_invocation` builds it.
pub fn record_invocation(
    agent: &Agent,
    response: String,
    started_ms: i64,
    finished_ms: i64,
) -> (r: AgentInvocationResult)
    ensures
        r.id@.len() == 36,
        r.agent@ == agent.name@,
        r.agent_id@ == agent.id@,
        r.specialty@ == agent.specialty@,
        r.response == response,
        r.execution_time_ms == elapsed_ms(started_ms as int, finished_ms as int),
        r.timestamp@.len() > 0,
{
    let id = new_invocation_id();
    let stamp = now_rfc3339();
    complete_invocation(agent, id, response, started_ms, finished_ms, stamp)
}

/// Pairs a generated result with the storage outcome: the result is
/// returned in either case — a storage failure is surfaced beside it,
/// never in place of it.
pub fn attach_storage_outcome(result: AgentInvocationResult, stored: Result<(), String>) -> (r: (
    AgentInvocationResult,
    Option<OrchestratorError>,
))
    ensures
        r.0 == result,
        match stored {
            Ok(()) => r.1 is None,
            Err(m) => r.1 matches Some(e) && e matches OrchestratorError::Storage { reason }
                && reason == m,
        },
{
    match stored {
        Ok(()) => (result, None),
        Err(m) => (result, Some(OrchestratorError::Storage { reason: m })),
    }
}

/// A stored-prompt record under a fresh id, stamped with the present
/// moment; name, content and tags are kept exactly as handed in.
pub fn make_prompt_record(name: String, content: String, tags: Vec<String>) -> (r: PromptRecord)
    ensures
        r.name == name,
        r.content == content,
        r.tags == tags,
        r.id@.len() == 36,
        r.created_at@.len() > 0,
{
    PromptRecord { id: new_invocation_id(), name, content, tags, created_at: now_rfc3339() }
}

} // verus!

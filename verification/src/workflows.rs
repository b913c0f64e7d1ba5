//! The workflow execution engine: ordered phases, each a set of agents
//! invoked concurrently against the context accumulated so far. The engine
//! holds a point-in-time registry snapshot, so a reload of the live registry
//! never disturbs an in-flight run. The outbound generation calls are the
//! runtime's: the engine hands out one prompt per agent of the current
//! phase, the runtime settles them concurrently and reports every outcome,
//! and `advance` folds them in and decides whether the run goes on, completes
//! or aborts. Definitions are append-only, so a run's index into the engine
//! stays valid for its whole life.

use vstd::prelude::*;
use vstd::pervasive::unreached;
use crate::agents::Agent;
use crate::agents::AgentRegistry;
use crate::agents::find_agent;
use crate::errors::OrchestratorError;
use crate::prompt::ContextEntry;
use crate::prompt::build_agent_prompt;
use crate::prompt::prompt_text;
use crate::router::GenEvent;

verus! {

/// A named set of agents executed concurrently within one workflow step;
/// the order of ids is for display only.
pub struct Phase {
    pub name: String,
    pub agent_ids: Vec<String>,
}

/// An ordered sequence of phases, with an optional designated synthesis
/// agent in the last phase whose output becomes the final text.
pub struct WorkflowDefinition {
    pub id: String,
    pub name: String,
    pub description: String,
    pub phases: Vec<Phase>,
    /// When set, the final aggregate is this agent's last-phase output;
    /// when absent (or when that agent failed), the aggregate is the
    /// concatenation of the last phase's successful outputs.
    pub synthesis_agent: Option<String>,
}

/// Optional modifiers for a run; an absent value contributes nothing to
/// prompt construction, it is never defaulted.
pub struct WorkflowOptions {
    pub theme: Option<String>,
    pub genre: Option<String>,
    pub tone: Option<String>,
    pub scope: Option<String>,
}

/// Summary information about one known workflow definition.
pub struct WorkflowInfo {
    pub id: String,
    pub name: String,
    pub description: String,
    pub agent_count: usize,
    pub phases: usize,
}

/// One agent's settled outcome within a phase, success or failure.
pub struct AgentOutcome {
    pub agent_id: String,
    pub outcome: GenEvent,
}

/// One prompt the runtime is to issue for one agent of the current phase.
pub struct AgentPrompt {
    pub agent_id: String,
    pub prompt: String,
}

/// Per-phase record of every agent's outcome, failures included.
pub struct PhaseOutput {
    pub phase_name: String,
    pub results: Vec<AgentOutcome>,
}

/// Where a run stands.
#[derive(Clone, Copy, PartialEq, Eq, Structural, Debug)]
pub enum RunStatus {
    /// Some phase is still to be attempted.
    Running,
    /// All phases attempted and the aggregate produced.
    Completed,
    /// A phase failed for every one of its agents; later phases were never
    /// attempted.
    Aborted,
}

/// One workflow execution. `outputs` holds one record per phase attempted.
pub struct WorkflowRun {
    pub workflow_index: usize,
    pub task: String,
    pub phase_index: usize,
    pub outputs: Vec<PhaseOutput>,
    pub context: Vec<ContextEntry>,
    pub status: RunStatus,
    pub final_output: Option<String>,
}

/// What a finished run reports: per-phase detail, final text, and whether
/// the run completed or aborted — never a thrown-and-lost error. An aborted
/// run names the phase whose agents all failed.
pub struct WorkflowResult {
    pub workflow_id: String,
    pub status: RunStatus,
    pub phase_outputs: Vec<PhaseOutput>,
    pub final_output: Option<String>,
    pub error: Option<OrchestratorError>,
}

/// How many agent slots a run of the definition invokes in all.
pub open spec fn agents_in(phases: Seq<Phase>) -> int
    decreases phases.len(),
{
    if phases.len() == 0 {
        0
    } else {
        phases[0].agent_ids@.len() + agents_in(phases.drop_first())
    }
}

/// Whether the phase names this agent id.
pub open spec fn phase_contains(ph: Phase, id: Seq<char>) -> bool {
    exists|i: int| 0 <= i < ph.agent_ids@.len() && ph.agent_ids@[i]@ == id
}

/// A definition the engine accepts: at least one phase, no empty phase,
/// every referenced agent known to the registry snapshot at definition
/// time, a countable total of agent slots, and a synthesis agent (if one is
/// designated) that stands in the last phase.
pub open spec fn def_valid(def: WorkflowDefinition, agents: Seq<Agent>) -> bool {
    &&& def.phases@.len() >= 1
    &&& (forall|p: int| 0 <= p < def.phases@.len() ==> def.phases@[p].agent_ids@.len() >= 1)
    &&& (forall|p: int, a: int|
        0 <= p < def.phases@.len() && 0 <= a < def.phases@[p].agent_ids@.len() ==> find_agent(
            agents,
            def.phases@[p].agent_ids@[a]@,
        ) is Some)
    &&& agents_in(def.phases@) <= usize::MAX
    &&& (match def.synthesis_agent {
        Some(s) => phase_contains(def.phases@[def.phases@.len() - 1], s@),
        None => true,
    })
}

/// Every agent of the phase failed.
pub open spec fn all_failed(rs: Seq<AgentOutcome>) -> bool {
    forall|i: int| 0 <= i < rs.len() ==> rs[i].outcome is Failure
}

/// The context entries a phase's outcomes contribute: one entry per
/// successful agent, keyed by its id, in outcome order; failed agents
/// contribute nothing.
pub open spec fn successes_of(rs: Seq<AgentOutcome>) -> Seq<ContextEntry>
    decreases rs.len(),
{
    if rs.len() == 0 {
        Seq::empty()
    } else {
        (match rs[0].outcome {
            GenEvent::Success { text } => seq![ContextEntry { key: rs[0].agent_id, value: text }],
            GenEvent::Failure { .. } => Seq::<ContextEntry>::empty(),
        }) + successes_of(rs.drop_first())
    }
}

/// The concatenation of the successful outputs, each followed by a blank
/// line; the default final aggregate.
pub open spec fn final_concat(rs: Seq<AgentOutcome>) -> Seq<char>
    decreases rs.len(),
{
    if rs.len() == 0 {
        Seq::empty()
    } else {
        (match rs[0].outcome {
            GenEvent::Success { text } => text@ + "\n\n"@,
            GenEvent::Failure { .. } => Seq::<char>::empty(),
        }) + final_concat(rs.drop_first())
    }
}

/// The first successful output of the agent with this id, if any.
pub open spec fn success_text_of(rs: Seq<AgentOutcome>, id: Seq<char>) -> Option<String>
    decreases rs.len(),
{
    if rs.len() == 0 {
        None
    } else if rs[0].agent_id@ == id && rs[0].outcome is Success {
        Some(rs[0].outcome->Success_text)
    } else {
        success_text_of(rs.drop_first(), id)
    }
}

/// The final aggregate over the last phase's outcomes: the designated
/// synthesis agent's output when one is designated and succeeded, else the
/// concatenation of the successful outputs.
pub open spec fn aggregate_text(synth: Option<String>, rs: Seq<AgentOutcome>) -> Seq<char> {
    match synth {
        Some(sid) => match success_text_of(rs, sid@) {
            Some(t) => t@,
            None => final_concat(rs),
        },
        None => final_concat(rs),
    }
}

/// The (key, value) views of a run's initial context: one pair per present
/// option, in a fixed order.
pub open spec fn options_entry_views(o: Option<WorkflowOptions>) -> Seq<(Seq<char>, Seq<char>)> {
    match o {
        None => Seq::empty(),
        Some(w) => (match w.theme {
            Some(t) => seq![("theme"@, t@)],
            None => Seq::<(Seq<char>, Seq<char>)>::empty(),
        }) + (match w.genre {
            Some(t) => seq![("genre"@, t@)],
            None => Seq::<(Seq<char>, Seq<char>)>::empty(),
        }) + (match w.tone {
            Some(t) => seq![("tone"@, t@)],
            None => Seq::<(Seq<char>, Seq<char>)>::empty(),
        }) + (match w.scope {
            Some(t) => seq![("scope"@, t@)],
            None => Seq::<(Seq<char>, Seq<char>)>::empty(),
        }),
    }
}

/// The (key, value) views of a run of context entries.
pub open spec fn entry_views(es: Seq<ContextEntry>) -> Seq<(Seq<char>, Seq<char>)> {
    es.map_values(|e: ContextEntry| (e.key@, e.value@))
}

proof fn lemma_successes_snoc(rs: Seq<AgentOutcome>, r: AgentOutcome)
    ensures
        successes_of(rs.push(r)) == successes_of(rs) + (match r.outcome {
            GenEvent::Success { text } => seq![ContextEntry { key: r.agent_id, value: text }],
            GenEvent::Failure { .. } => Seq::<ContextEntry>::empty(),
        }),
    decreases rs.len(),
{
    if rs.len() == 0 {
        assert(rs.push(r)[0] == r);
        assert(rs.push(r).drop_first() =~= rs);
        assert(successes_of(rs.push(r)) =~= successes_of(rs) + (match r.outcome {
            GenEvent::Success { text } => seq![ContextEntry { key: r.agent_id, value: text }],
            GenEvent::Failure { .. } => Seq::<ContextEntry>::empty(),
        }));
    } else {
        assert(rs.push(r)[0] == rs[0]);
        assert(rs.push(r).drop_first() =~= rs.drop_first().push(r));
        lemma_successes_snoc(rs.drop_first(), r);
        assert(successes_of(rs.push(r)) =~= successes_of(rs) + (match r.outcome {
            GenEvent::Success { text } => seq![ContextEntry { key: r.agent_id, value: text }],
            GenEvent::Failure { .. } => Seq::<ContextEntry>::empty(),
        }));
    }
}

proof fn lemma_final_concat_snoc(rs: Seq<AgentOutcome>, r: AgentOutcome)
    ensures
        final_concat(rs.push(r)) == final_concat(rs) + (match r.outcome {
            GenEvent::Success { text } => text@ + "\n\n"@,
            GenEvent::Failure { .. } => Seq::<char>::empty(),
        }),
    decreases rs.len(),
{
    if rs.len() == 0 {
        assert(rs.push(r)[0] == r);
        assert(rs.push(r).drop_first() =~= rs);
        assert(final_concat(rs.push(r)) =~= final_concat(rs) + (match r.outcome {
            GenEvent::Success { text } => text@ + "\n\n"@,
            GenEvent::Failure { .. } => Seq::<char>::empty(),
        }));
    } else {
        assert(rs.push(r)[0] == rs[0]);
        assert(rs.push(r).drop_first() =~= rs.drop_first().push(r));
        lemma_final_concat_snoc(rs.drop_first(), r);
        assert(final_concat(rs.push(r)) =~= final_concat(rs) + (match r.outcome {
            GenEvent::Success { text } => text@ + "\n\n"@,
            GenEvent::Failure { .. } => Seq::<char>::empty(),
        }));
    }
}

proof fn lemma_agents_in_snoc(phases: Seq<Phase>, p: Phase)
    ensures
        agents_in(phases.push(p)) == agents_in(phases) + p.agent_ids@.len(),
    decreases phases.len(),
{
    if phases.len() == 0 {
        assert(phases.push(p)[0] == p);
        assert(phases.push(p).drop_first() =~= phases);
    } else {
        assert(phases.push(p)[0] == phases[0]);
        assert(phases.push(p).drop_first() =~= phases.drop_first().push(p));
        lemma_agents_in_snoc(phases.drop_first(), p);
    }
}

proof fn lemma_agents_in_nonneg(phases: Seq<Phase>)
    ensures
        agents_in(phases) >= 0,
    decreases phases.len(),
{
    if phases.len() > 0 {
        lemma_agents_in_nonneg(phases.drop_first());
    }
}

/// A prefix of the phases never counts more agent slots than the whole.
proof fn lemma_agents_in_take_le(phases: Seq<Phase>, p: int)
    requires
        0 <= p <= phases.len(),
    ensures
        agents_in(phases.take(p)) <= agents_in(phases),
    decreases phases.len() - p,
{
    if p == phases.len() {
        assert(phases.take(p) =~= phases);
    } else {
        lemma_agents_in_snoc(phases.take(p), phases[p]);
        assert(phases.take(p).push(phases[p]) =~= phases.take(p + 1));
        lemma_agents_in_take_le(phases, p + 1);
    }
}

/// The catalog of workflow definitions, bound to a registry snapshot.
pub struct WorkflowEngine {
    pub registry: AgentRegistry,
    pub workflows: Vec<WorkflowDefinition>,
}

impl WorkflowEngine {
    /// The registry snapshot is well formed, every definition is valid
    /// against it, and workflow ids are unique.
    pub open spec fn wf(&self) -> bool {
        &&& self.registry.wf()
        &&& (forall|i: int|
            0 <= i < self.workflows@.len() ==> def_valid(self.workflows@[i], self.registry@))
        &&& (forall|i: int, j: int|
            0 <= i < j < self.workflows@.len() ==> self.workflows@[i].id@
                != self.workflows@[j].id@)
    }

    /// A run the engine can act on.
    pub open spec fn run_wf(&self, run: WorkflowRun) -> bool {
        &&& run.workflow_index < self.workflows@.len()
        &&& (run.status is Running ==> run.phase_index
            < self.workflows@[run.workflow_index as int].phases@.len() && run.outputs@.len()
            == run.phase_index && run.final_output is None)
        &&& (run.status is Completed ==> run.outputs@.len()
            == self.workflows@[run.workflow_index as int].phases@.len() && run.final_output is Some)
        &&& (run.status is Aborted ==> run.outputs@.len() <= self.workflows@[
            run.workflow_index as int].phases@.len() && run.final_output is None)
    }

    /// An engine over a point-in-time registry view, with no definitions
    /// yet.
    pub fn new(registry: AgentRegistry) -> (r: WorkflowEngine)
        requires
            registry.wf(),
        ensures
            r.wf(),
            r.registry@ == registry@,
            r.workflows@.len() == 0,
    {
        WorkflowEngine { registry, workflows: Vec::new() }
    }

    /// Whether the engine accepts the definition: valid against the
    /// registry snapshot, and its id fresh.
    fn definition_acceptable(&self, def: &WorkflowDefinition) -> (r: bool)
        requires
            self.wf(),
        ensures
            r == (def_valid(*def, self.registry@) && (forall|k: int|
                0 <= k < self.workflows@.len() ==> self.workflows@[k].id@ != def.id@)),
    {
        // Fresh id.
        let nw = self.workflows.len();
        let mut w: usize = 0;
        while w < nw
            invariant
                w <= nw,
                nw == self.workflows@.len(),
                forall|k: int| 0 <= k < w ==> self.workflows@[k].id@ != def.id@,
            decreases nw - w,
        {
            if self.workflows[w].id == def.id {
                return false;
            }
            w = w + 1;
        }
        // At least one phase; no empty phase; all agents known; countable.
        if def.phases.len() == 0 {
            return false;
        }
        let np = def.phases.len();
        let mut total: usize = 0;
        let mut p: usize = 0;
        while p < np
            invariant
                p <= np,
                np == def.phases@.len(),
                total == agents_in(def.phases@.take(p as int)),
                forall|q: int| 0 <= q < p ==> def.phases@[q].agent_ids@.len() >= 1,
                forall|q: int, a: int|
                    0 <= q < p && 0 <= a < def.phases@[q].agent_ids@.len() ==> find_agent(
                        self.registry@,
                        def.phases@[q].agent_ids@[a]@,
                    ) is Some,
                self.wf(),
            decreases np - p,
        {
            let ph = &def.phases[p];
            let na = ph.agent_ids.len();
            if na == 0 {
                return false;
            }
            let mut a: usize = 0;
            while a < na
                invariant
                    a <= na,
                    na == ph.agent_ids@.len(),
                    ph == def.phases@[p as int],
                    p < def.phases@.len(),
                    forall|b: int|
                        0 <= b < a ==> find_agent(self.registry@, ph.agent_ids@[b]@) is Some,
                    self.wf(),
                decreases na - a,
            {
                if self.registry.get_agent(&ph.agent_ids[a]).is_none() {
                    return false;
                }
                a = a + 1;
            }
            let next_total = match total.checked_add(na) {
                Some(t) => t,
                None => {
                    proof {
                        lemma_agents_in_snoc(def.phases@.take(p as int), def.phases@[p as int]);
                        assert(def.phases@.take(p as int).push(def.phases@[p as int])
                            =~= def.phases@.take(p as int + 1));
                        lemma_agents_in_take_le(def.phases@, p as int + 1);
                    }
                    return false;
                },
            };
            proof {
                lemma_agents_in_snoc(def.phases@.take(p as int), def.phases@[p as int]);
                assert(def.phases@.take(p as int).push(def.phases@[p as int]) =~= def.phases@.take(
                    p as int + 1,
                ));
            }
            total = next_total;
            p = p + 1;
        }
        proof {
            assert(def.phases@.take(np as int) =~= def.phases@);
        }
        // A designated synthesis agent must stand in the last phase.
        if let Some(sid) = &def.synthesis_agent {
            let last = &def.phases[def.phases.len() - 1];
            let na = last.agent_ids.len();
            let mut a: usize = 0;
            while a < na
                invariant
                    a <= na,
                    na == last.agent_ids@.len(),
                    last == def.phases@[def.phases@.len() - 1],
                    def.phases@.len() >= 1,
                    sid == def.synthesis_agent->Some_0,
                    forall|b: int| 0 <= b < a ==> last.agent_ids@[b]@ != sid@,
                    forall|k: int|
                        0 <= k < self.workflows@.len() ==> self.workflows@[k].id@ != def.id@,
                    forall|q: int| 0 <= q < def.phases@.len() ==> def.phases@[q].agent_ids@.len() >= 1,
                    forall|q: int, b: int|
                        0 <= q < def.phases@.len() && 0 <= b < def.phases@[q].agent_ids@.len()
                            ==> find_agent(self.registry@, def.phases@[q].agent_ids@[b]@) is Some,
                    agents_in(def.phases@) <= usize::MAX,
                decreases na - a,
            {
                if last.agent_ids[a] == *sid {
                    proof {
                        assert(phase_contains(
                            def.phases@[def.phases@.len() - 1],
                            def.synthesis_agent->Some_0@,
                        ));
                    }
                    return true;
                }
                a = a + 1;
            }
            return false;
        }
        true
    }

    /// Accepts a definition after checking every invariant a workflow must
    /// hold at definition time; a broken one is a configuration error and
    /// leaves the engine unchanged. Succeeds exactly on a valid definition
    /// with a fresh id.
    pub fn register_workflow(&mut self, def: WorkflowDefinition) -> (r: Result<
        (),
        OrchestratorError,
    >)
        requires
            old(self).wf(),
        ensures
            final(self).wf(),
            final(self).registry@ == old(self).registry@,
            match r {
                Ok(()) => final(self).workflows@ == old(self).workflows@.push(def) && def_valid(
                    def,
                    old(self).registry@,
                ) && (forall|k: int|
                    0 <= k < old(self).workflows@.len() ==> old(self).workflows@[k].id@ != def.id@),
                Err(e) => e is WorkflowConfig && final(self).workflows@ == old(self).workflows@ && !(
                def_valid(def, old(self).registry@) && (forall|k: int|
                    0 <= k < old(self).workflows@.len() ==> old(self).workflows@[k].id@
                        != def.id@)),
            },
    {
        if self.definition_acceptable(&def) {
            self.workflows.push(def);
            Ok(())
        } else {
            Err(OrchestratorError::WorkflowConfig { workflow_id: def.id })
        }
    }

    /// Summary info for every known definition, in registration order;
    /// pure, no side effects.
    pub fn list_workflows(&self) -> (r: Vec<WorkflowInfo>)
        requires
            self.wf(),
        ensures
            r@.len() == self.workflows@.len(),
            forall|i: int|
                0 <= i < r@.len() ==> r@[i].id@ == self.workflows@[i].id@ && r@[i].name@
                    == self.workflows@[i].name@ && r@[i].description@
                    == self.workflows@[i].description@ && r@[i].agent_count == agents_in(
                    self.workflows@[i].phases@,
                ) && r@[i].phases == self.workflows@[i].phases@.len(),
    {
        let mut out: Vec<WorkflowInfo> = Vec::new();
        let nw = self.workflows.len();
        let mut w: usize = 0;
        while w < nw
            invariant
                w <= nw,
                nw == self.workflows@.len(),
                self.wf(),
                out@.len() == w,
                forall|i: int|
                    0 <= i < w ==> out@[i].id@ == self.workflows@[i].id@ && out@[i].name@
                        == self.workflows@[i].name@ && out@[i].description@
                        == self.workflows@[i].description@ && out@[i].agent_count == agents_in(
                        self.workflows@[i].phases@,
                    ) && out@[i].phases == self.workflows@[i].phases@.len(),
            decreases nw - w,
        {
            let def = &self.workflows[w];
            let np = def.phases.len();
            let mut total: usize = 0;
            let mut p: usize = 0;
            while p < np
                invariant
                    p <= np,
                    np == def.phases@.len(),
                    def == self.workflows@[w as int],
                    w < self.workflows@.len(),
                    self.wf(),
                    total == agents_in(def.phases@.take(p as int)),
                decreases np - p,
            {
                proof {
                    lemma_agents_in_snoc(def.phases@.take(p as int), def.phases@[p as int]);
                    assert(def.phases@.take(p as int).push(def.phases@[p as int])
                        =~= def.phases@.take(p as int + 1));
                    lemma_agents_in_take_le(def.phases@, p as int + 1);
                    lemma_agents_in_nonneg(def.phases@.take(p as int));
                }
                total = total + def.phases[p].agent_ids.len();
                p = p + 1;
            }
            proof {
                assert(def.phases@.take(np as int) =~= def.phases@);
            }
            out.push(
                WorkflowInfo {
                    id: def.id.clone(),
                    name: def.name.clone(),
                    description: def.description.clone(),
                    agent_count: total,
                    phases: np,
                },
            );
            w = w + 1;
        }
        out
    }

    /// Begins a run of the named workflow: resolves the definition — an
    /// unknown id is reported, never thrown — and seeds the context from
    /// the present options, in the fixed order theme, genre, tone, scope.
    pub fn start_run(&self, workflow_id: &String, task: &String, options: &Option<WorkflowOptions>)
        -> (r: Result<WorkflowRun, OrchestratorError>)
        requires
            self.wf(),
        ensures
            match r {
                Ok(run) => {
                    &&& run.workflow_index < self.workflows@.len()
                    &&& self.workflows@[run.workflow_index as int].id@ == workflow_id@
                    &&& run.task@ == task@
                    &&& run.phase_index == 0
                    &&& run.outputs@.len() == 0
                    &&& run.status is Running
                    &&& run.final_output is None
                    &&& entry_views(run.context@) == options_entry_views(*options)
                    &&& self.run_wf(run)
                },
                Err(e) => e is WorkflowNotFound && (forall|k: int|
                    0 <= k < self.workflows@.len() ==> self.workflows@[k].id@ != workflow_id@),
            },
    {
        let nw = self.workflows.len();
        let mut w: usize = 0;
        while w < nw
            invariant
                w <= nw,
                nw == self.workflows@.len(),
                self.wf(),
                forall|k: int| 0 <= k < w ==> self.workflows@[k].id@ != workflow_id@,
            decreases nw - w,
        {
            if self.workflows[w].id == *workflow_id {
                let mut context: Vec<ContextEntry> = Vec::new();
                if let Some(opts) = options {
                    if let Some(t) = &opts.theme {
                        context.push(
                            ContextEntry { key: String::from_str("theme"), value: t.clone() },
                        );
                    }
                    if let Some(t) = &opts.genre {
                        context.push(
                            ContextEntry { key: String::from_str("genre"), value: t.clone() },
                        );
                    }
                    if let Some(t) = &opts.tone {
                        context.push(
                            ContextEntry { key: String::from_str("tone"), value: t.clone() },
                        );
                    }
                    if let Some(t) = &opts.scope {
                        context.push(
                            ContextEntry { key: String::from_str("scope"), value: t.clone() },
                        );
                    }
                }
                proof {
                    assert(entry_views(context@) =~= options_entry_views(*options));
                }
                return Ok(
                    WorkflowRun {
                        workflow_index: w,
                        task: task.clone(),
                        phase_index: 0,
                        outputs: Vec::new(),
                        context,
                        status: RunStatus::Running,
                        final_output: None,
                    },
                );
            }
            w = w + 1;
        }
        Err(OrchestratorError::WorkflowNotFound { workflow_id: workflow_id.clone() })
    }

    /// One prompt per agent of the run's current phase, each built from the
    /// task and the context accumulated so far; the runtime issues all of
    /// them concurrently and settles them before `advance`.
    pub fn phase_prompts(&self, run: &WorkflowRun) -> (r: Vec<AgentPrompt>)
        requires
            self.wf(),
            self.run_wf(*run),
            run.status is Running,
        ensures
            ({
                let ids = self.workflows@[run.workflow_index as int].phases@[
                    run.phase_index as int].agent_ids@;
                &&& r@.len() == ids.len()
                &&& (forall|i: int|
                    0 <= i < ids.len() ==> r@[i].agent_id@ == ids[i]@ && r@[i].prompt@
                        == prompt_text(
                        find_agent(self.registry@, ids[i]@)->Some_0,
                        run.task@,
                        Some(run.context@),
                    ))
            }),
    {
        let def = &self.workflows[run.workflow_index];
        let ph = &def.phases[run.phase_index];
        let na = ph.agent_ids.len();
        let mut out: Vec<AgentPrompt> = Vec::new();
        let mut a: usize = 0;
        while a < na
            invariant
                a <= na,
                na == ph.agent_ids@.len(),
                ph == self.workflows@[run.workflow_index as int].phases@[run.phase_index as int],
                run.workflow_index < self.workflows@.len(),
                run.phase_index < self.workflows@[run.workflow_index as int].phases@.len(),
                self.wf(),
                out@.len() == a,
                forall|i: int|
                    0 <= i < a ==> out@[i].agent_id@ == ph.agent_ids@[i]@ && out@[i].prompt@
                        == prompt_text(
                        find_agent(self.registry@, ph.agent_ids@[i]@)->Some_0,
                        run.task@,
                        Some(run.context@),
                    ),
            decreases na - a,
        {
            let id = &ph.agent_ids[a];
            match self.registry.get_agent(id) {
                Some(agent) => {
                    let prompt = build_agent_prompt(&agent, run.task.as_str(), Some(&run.context));
                    out.push(AgentPrompt { agent_id: id.clone(), prompt });
                },
                None => {
                    return unreached();
                },
            }
            a = a + 1;
        }
        out
    }

    /// Folds one settled phase into the run: records every agent's outcome
    /// — failures explicitly — then either aborts (every agent failed, so
    /// nothing can feed forward), completes (that was the last phase; the
    /// aggregate is produced), or moves to the next phase with the
    /// successes appended to the context.
    pub fn advance(&self, run: &mut WorkflowRun, outcomes: Vec<AgentOutcome>)
        requires
            self.wf(),
            self.run_wf(*old(run)),
            old(run).status is Running,
            outcomes@.len() == self.workflows@[old(run).workflow_index as int].phases@[old(
                run,
            ).phase_index as int].agent_ids@.len(),
            forall|i: int|
                0 <= i < outcomes@.len() ==> outcomes@[i].agent_id@ == self.workflows@[old(
                    run,
                ).workflow_index as int].phases@[old(run).phase_index as int].agent_ids@[i]@,
        ensures
            self.run_wf(*final(run)),
            final(run).workflow_index == old(run).workflow_index,
            final(run).task@ == old(run).task@,
            final(run).outputs@.len() == old(run).outputs@.len() + 1,
            forall|i: int|
                0 <= i < old(run).outputs@.len() ==> final(run).outputs@[i] == old(
                    run,
                ).outputs@[i],
            final(run).outputs@.last().phase_name@ == self.workflows@[old(
                run,
            ).workflow_index as int].phases@[old(run).phase_index as int].name@,
            final(run).outputs@.last().results@ == outcomes@,
            if all_failed(outcomes@) {
                &&& final(run).status is Aborted
                &&& final(run).final_output is None
                &&& final(run).context@ == old(run).context@
                &&& final(run).phase_index == old(run).phase_index
            } else {
                &&& final(run).context@ == old(run).context@ + successes_of(outcomes@)
                &&& if old(run).phase_index + 1 == self.workflows@[old(
                    run,
                ).workflow_index as int].phases@.len() {
                    &&& final(run).status is Completed
                    &&& final(run).final_output is Some
                    &&& final(run).final_output->Some_0@ == aggregate_text(
                        self.workflows@[old(run).workflow_index as int].synthesis_agent,
                        outcomes@,
                    )
                    &&& final(run).phase_index == old(run).phase_index
                } else {
                    &&& final(run).status is Running
                    &&& final(run).final_output is None
                    &&& final(run).phase_index == old(run).phase_index + 1
                }
            },
    {
        let n = outcomes.len();
        // Did anything succeed?
        let mut any_success = false;
        let mut i: usize = 0;
        while i < n
            invariant
                i <= n,
                n == outcomes@.len(),
                any_success == exists|k: int| 0 <= k < i && outcomes@[k].outcome is Success,
            decreases n - i,
        {
            match &outcomes[i].outcome {
                GenEvent::Success { .. } => {
                    any_success = true;
                },
                GenEvent::Failure { .. } => {},
            }
            i = i + 1;
        }
        let def = &self.workflows[run.workflow_index];
        let ph = &def.phases[run.phase_index];
        if !any_success {
            let record = PhaseOutput { phase_name: ph.name.clone(), results: outcomes };
            run.outputs.push(record);
            run.status = RunStatus::Aborted;
            return ;
        }
        // Collect the successes as context entries, in outcome order.
        let mut gained: Vec<ContextEntry> = Vec::new();
        let mut i: usize = 0;
        while i < n
            invariant
                i <= n,
                n == outcomes@.len(),
                gained@ == successes_of(outcomes@.take(i as int)),
            decreases n - i,
        {
            match &outcomes[i].outcome {
                GenEvent::Success { text } => {
                    gained.push(
                        ContextEntry { key: outcomes[i].agent_id.clone(), value: text.clone() },
                    );
                },
                GenEvent::Failure { .. } => {},
            }
            proof {
                lemma_successes_snoc(outcomes@.take(i as int), outcomes@[i as int]);
                assert(outcomes@.take(i as int).push(outcomes@[i as int]) =~= outcomes@.take(
                    i as int + 1,
                ));
                assert(gained@ =~= successes_of(outcomes@.take(i as int + 1)));
            }
            i = i + 1;
        }
        proof {
            assert(outcomes@.take(n as int) =~= outcomes@);
        }
        let np = def.phases.len();
        let last_phase = run.phase_index + 1 == np;
        if last_phase {
            // The aggregate: the synthesis agent's output when designated
            // and successful, else the concatenation of the successes.
            let mut synth_text: Option<String> = None;
            if let Some(sid) = &def.synthesis_agent {
                let mut k: usize = 0;
                proof {
                    assert(outcomes@.skip(0) =~= outcomes@);
                }
                while k < n
                    invariant_except_break
                        synth_text is None,
                    invariant
                        k <= n,
                        n == outcomes@.len(),
                        sid == def.synthesis_agent->Some_0,
                        success_text_of(outcomes@, sid@) == success_text_of(
                            outcomes@.skip(k as int),
                            sid@,
                        ),
                    ensures
                        synth_text == success_text_of(outcomes@, sid@),
                    decreases n - k,
                {
                    proof {
                        assert(outcomes@.skip(k as int)[0] == outcomes@[k as int]);
                        assert(outcomes@.skip(k as int).drop_first() =~= outcomes@.skip(
                            k as int + 1,
                        ));
                    }
                    let oc = &outcomes[k];
                    if oc.agent_id == *sid {
                        match &oc.outcome {
                            GenEvent::Success { text } => {
                                synth_text = Some(text.clone());
                                proof {
                                    assert(success_text_of(outcomes@.skip(k as int), sid@) == Some(
                                        outcomes@[k as int].outcome->Success_text,
                                    ));
                                }
                                break ;
                            },
                            GenEvent::Failure { .. } => {},
                        }
                    }
                    k = k + 1;
                }
                proof {
                    if synth_text is None {
                        assert(success_text_of(outcomes@, sid@) is None);
                    }
                }
            }
            let aggregate: String = match synth_text {
                Some(t) => t,
                None => {
                    let mut s = String::new();
                    let mut k: usize = 0;
                    proof {
                        assert(s@ =~= final_concat(outcomes@.take(0)));
                    }
                    while k < n
                        invariant
                            k <= n,
                            n == outcomes@.len(),
                            s@ == final_concat(outcomes@.take(k as int)),
                        decreases n - k,
                    {
                        match &outcomes[k].outcome {
                            GenEvent::Success { text } => {
                                s.append(text.as_str());
                                s.append("\n\n");
                            },
                            GenEvent::Failure { .. } => {},
                        }
                        proof {
                            lemma_final_concat_snoc(outcomes@.take(k as int), outcomes@[k as int]);
                            assert(outcomes@.take(k as int).push(outcomes@[k as int])
                                =~= outcomes@.take(k as int + 1));
                            assert(s@ =~= final_concat(outcomes@.take(k as int + 1)));
                        }
                        k = k + 1;
                    }
                    proof {
                        assert(outcomes@.take(n as int) =~= outcomes@);
                    }
                    s
                },
            };
            let record = PhaseOutput { phase_name: ph.name.clone(), results: outcomes };
            run.outputs.push(record);
            run.context.append(&mut gained);
            run.status = RunStatus::Completed;
            run.final_output = Some(aggregate);
        } else {
            let record = PhaseOutput { phase_name: ph.name.clone(), results: outcomes };
            run.outputs.push(record);
            run.context.append(&mut gained);
            run.phase_index = run.phase_index + 1;
        }
    }

    /// The typed result of a finished run: per-phase detail and, when the
    /// run completed, the final aggregate; an aborted run carries the
    /// phase-failed error naming the phase whose agents all failed.
    pub fn run_result(&self, run: WorkflowRun) -> (r: WorkflowResult)
        requires
            self.wf(),
            run.workflow_index < self.workflows@.len(),
            !(run.status is Running),
        ensures
            r.workflow_id@ == self.workflows@[run.workflow_index as int].id@,
            r.status == run.status,
            r.phase_outputs@ == run.outputs@,
            r.final_output == run.final_output,
            run.status is Aborted ==> (r.error matches Some(e) && e matches
                OrchestratorError::PhaseFailed { phase_index } && phase_index == run.phase_index),
            run.status is Completed ==> r.error is None,
    {
        let error = match run.status {
            RunStatus::Aborted => Some(
                OrchestratorError::PhaseFailed { phase_index: run.phase_index },
            ),
            _ => None,
        };
        WorkflowResult {
            workflow_id: self.workflows[run.workflow_index].id.clone(),
            status: run.status,
            phase_outputs: run.outputs,
            final_output: run.final_output,
            error,
        }
    }
}

/// Law: a phase where every agent failed contributes no context entry at
/// all — nothing remains to feed forward.
pub proof fn lemma_all_failed_no_successes(rs: Seq<AgentOutcome>)
    requires
        all_failed(rs),
    ensures
        successes_of(rs) == Seq::<ContextEntry>::empty(),
    decreases rs.len(),
{
    if rs.len() > 0 {
        assert(rs[0].outcome is Failure);
        assert(forall|i: int|
            0 <= i < rs.drop_first().len() ==> #[trigger] rs.drop_first()[i] == rs[i + 1]);
        lemma_all_failed_no_successes(rs.drop_first());
        assert(successes_of(rs) =~= Seq::<ContextEntry>::empty());
    }
}

/// The witness in `rs` for entry `k` of the phase's contributed context.
spec fn success_source(rs: Seq<AgentOutcome>, k: int, m: int) -> bool {
    0 <= m < rs.len() && rs[m].outcome is Success && successes_of(rs)[k].key == rs[m].agent_id
        && successes_of(rs)[k].value == rs[m].outcome->Success_text
}

/// Each context entry a phase contributes comes from one successful agent.
proof fn lemma_success_entry_source(rs: Seq<AgentOutcome>, k: int)
    requires
        0 <= k < successes_of(rs).len(),
    ensures
        exists|m: int| #[trigger] success_source(rs, k, m),
    decreases rs.len(),
{
    if rs.len() > 0 {
        let head: Seq<ContextEntry> = match rs[0].outcome {
            GenEvent::Success { text } => seq![ContextEntry { key: rs[0].agent_id, value: text }],
            GenEvent::Failure { .. } => Seq::<ContextEntry>::empty(),
        };
        assert(successes_of(rs) == head + successes_of(rs.drop_first()));
        if k < head.len() {
            assert(successes_of(rs)[k] == head[0]);
            assert(rs[0].outcome is Success);
            assert(success_source(rs, k, 0));
        } else {
            let k2 = k - head.len();
            assert(successes_of(rs)[k] == successes_of(rs.drop_first())[k2]);
            lemma_success_entry_source(rs.drop_first(), k2);
            let m2 = choose|m2: int| #[trigger] success_source(rs.drop_first(), k2, m2);
            assert(rs.drop_first()[m2] == rs[m2 + 1]);
            assert(success_source(rs, k, m2 + 1));
        }
    }
}

/// Each successful agent contributes one entry to the phase's context.
proof fn lemma_success_agent_entry(rs: Seq<AgentOutcome>, m: int)
    requires
        0 <= m < rs.len(),
        rs[m].outcome is Success,
    ensures
        exists|k: int| 0 <= k < successes_of(rs).len() && #[trigger] success_source(rs, k, m),
    decreases rs.len(),
{
    let head: Seq<ContextEntry> = match rs[0].outcome {
        GenEvent::Success { text } => seq![ContextEntry { key: rs[0].agent_id, value: text }],
        GenEvent::Failure { .. } => Seq::<ContextEntry>::empty(),
    };
    assert(successes_of(rs) == head + successes_of(rs.drop_first()));
    if m == 0 {
        assert(successes_of(rs)[0] == head[0]);
        assert(success_source(rs, 0, 0));
    } else {
        assert(rs.drop_first()[m - 1] == rs[m]);
        lemma_success_agent_entry(rs.drop_first(), m - 1);
        let k2 = choose|k2: int|
            0 <= k2 < successes_of(rs.drop_first()).len() && #[trigger] success_source(
                rs.drop_first(),
                k2,
                m - 1,
            );
        assert(successes_of(rs)[k2 + head.len()] == successes_of(rs.drop_first())[k2]);
        assert(success_source(rs, k2 + head.len(), m));
    }
}

/// Law: after a phase in which one agent succeeded and another failed, the
/// context fed to the next phase holds the successful agent's output, and
/// holds no entry keyed by the failed agent (given none stood there before
/// and the phase's agent ids are distinct).
pub proof fn lemma_partial_failure_context(
    before: Seq<ContextEntry>,
    outcomes: Seq<AgentOutcome>,
    i: int,
    j: int,
)
    requires
        0 <= i < outcomes.len(),
        0 <= j < outcomes.len(),
        outcomes[i].outcome is Success,
        outcomes[j].outcome is Failure,
        forall|k: int| 0 <= k < before.len() ==> before[k].key@ != outcomes[j].agent_id@,
        forall|k: int|
            0 <= k < outcomes.len() && k != j ==> outcomes[k].agent_id@ != outcomes[j].agent_id@,
    ensures
        exists|k: int|
            0 <= k < (before + successes_of(outcomes)).len() && (before + successes_of(outcomes))[
                k].key == outcomes[i].agent_id && (before + successes_of(outcomes))[k].value
                == outcomes[i].outcome->Success_text,
        forall|k: int|
            0 <= k < (before + successes_of(outcomes)).len() ==> (before + successes_of(outcomes))[
                k].key@ != outcomes[j].agent_id@,
{
    lemma_success_agent_entry(outcomes, i);
    let after = before + successes_of(outcomes);
    let k2 = choose|k2: int|
        0 <= k2 < successes_of(outcomes).len() && #[trigger] success_source(outcomes, k2, i);
    assert(after[k2 + before.len()] == successes_of(outcomes)[k2]);
    assert forall|k: int| 0 <= k < after.len() implies after[k].key@ != outcomes[j].agent_id@ by {
        if k < before.len() {
            assert(after[k] == before[k]);
        } else {
            assert(after[k] == successes_of(outcomes)[k - before.len()]);
            lemma_success_entry_source(outcomes, k - before.len());
            let m = choose|m: int| #[trigger] success_source(outcomes, k - before.len(), m);
            assert(m != j);
            assert(outcomes[m].agent_id@ != outcomes[j].agent_id@);
        }
    };
}

} // verus!

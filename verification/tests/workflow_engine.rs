use arcanea_core::agents::AgentRecord;
use arcanea_core::agents::AgentRegistry;
use arcanea_core::errors::OrchestratorError;
use arcanea_core::prompt::ContextEntry;
use arcanea_core::prompt::build_agent_prompt;
use arcanea_core::router::GenEvent;
use arcanea_core::workflows::AgentOutcome;
use arcanea_core::workflows::Phase;
use arcanea_core::workflows::RunStatus;
use arcanea_core::workflows::WorkflowDefinition;
use arcanea_core::workflows::WorkflowEngine;
use arcanea_core::workflows::WorkflowOptions;

fn record(id: &str, name: &str) -> AgentRecord {
    AgentRecord {
        id: String::from(id),
        name: String::from(name),
        court: String::from("Lunar"),
        specialty: String::from("melody"),
        frequency: 528,
    }
}

fn sample_engine() -> WorkflowEngine {
    let (reg, _) = AgentRegistry::load_from_records(vec![
        record("a", "Alta"),
        record("b", "Brio"),
        record("c", "Cello"),
    ])
    .unwrap();
    WorkflowEngine::new(reg)
}

fn phase(name: &str, ids: Vec<&str>) -> Phase {
    Phase { name: String::from(name), agent_ids: ids.into_iter().map(String::from).collect() }
}

fn two_phase_def(synthesis: Option<&str>) -> WorkflowDefinition {
    WorkflowDefinition {
        id: String::from("song"),
        name: String::from("Song"),
        description: String::from("draft then polish"),
        phases: vec![phase("draft", vec!["a", "b"]), phase("polish", vec!["c"])],
        synthesis_agent: synthesis.map(String::from),
    }
}

fn ok(id: &str, text: &str) -> AgentOutcome {
    AgentOutcome {
        agent_id: String::from(id),
        outcome: GenEvent::Success { text: String::from(text) },
    }
}

fn failed(id: &str, cause: &str) -> AgentOutcome {
    AgentOutcome {
        agent_id: String::from(id),
        outcome: GenEvent::Failure { cause: String::from(cause) },
    }
}

#[test]
fn register_accepts_a_valid_definition() {
    let mut engine = sample_engine();
    assert!(engine.register_workflow(two_phase_def(None)).is_ok());
    assert_eq!(engine.list_workflows().len(), 1);
}

#[test]
fn register_rejects_duplicate_id() {
    let mut engine = sample_engine();
    engine.register_workflow(two_phase_def(None)).unwrap();
    let r = engine.register_workflow(two_phase_def(None));
    assert!(matches!(r, Err(OrchestratorError::WorkflowConfig { .. })));
}

#[test]
fn register_rejects_unknown_agent() {
    let mut engine = sample_engine();
    let mut def = two_phase_def(None);
    def.phases[0].agent_ids.push(String::from("nobody"));
    assert!(engine.register_workflow(def).is_err());
}

#[test]
fn register_rejects_empty_phase_and_empty_workflow() {
    let mut engine = sample_engine();
    let mut def = two_phase_def(None);
    def.phases[1].agent_ids.clear();
    assert!(engine.register_workflow(def).is_err());
    let mut def2 = two_phase_def(None);
    def2.phases.clear();
    assert!(engine.register_workflow(def2).is_err());
}

#[test]
fn register_wants_synthesis_agent_in_last_phase() {
    let mut engine = sample_engine();
    // "a" stands in the first phase, not the last.
    assert!(engine.register_workflow(two_phase_def(Some("a"))).is_err());
    assert!(engine.register_workflow(two_phase_def(Some("c"))).is_ok());
}

#[test]
fn list_workflows_counts_agents_and_phases() {
    let mut engine = sample_engine();
    engine.register_workflow(two_phase_def(None)).unwrap();
    let infos = engine.list_workflows();
    assert_eq!(infos.len(), 1);
    assert_eq!(infos[0].id, "song");
    assert_eq!(infos[0].name, "Song");
    assert_eq!(infos[0].description, "draft then polish");
    assert_eq!(infos[0].agent_count, 3);
    assert_eq!(infos[0].phases, 2);
}

#[test]
fn unknown_workflow_id_is_reported() {
    let engine = sample_engine();
    let r = engine.start_run(&String::from("zz"), &String::from("write"), &None);
    assert!(matches!(r, Err(OrchestratorError::WorkflowNotFound { .. })));
}

#[test]
fn partial_failure_feeds_only_successes_forward() {
    let mut engine = sample_engine();
    engine.register_workflow(two_phase_def(None)).unwrap();
    let mut run = engine.start_run(&String::from("song"), &String::from("write"), &None).unwrap();

    let first = engine.phase_prompts(&run);
    assert_eq!(first.len(), 2);
    assert_eq!(first[0].agent_id, "a");
    assert_eq!(first[1].agent_id, "b");

    engine.advance(&mut run, vec![ok("a", "A wrote this"), failed("b", "boom")]);
    assert_eq!(run.status, RunStatus::Running);

    let second = engine.phase_prompts(&run);
    assert_eq!(second.len(), 1);
    assert_eq!(second[0].agent_id, "c");
    // The next phase's prompt context holds A's output and nothing for b.
    assert!(second[0].prompt.contains("- a: A wrote this\n"));
    assert!(!second[0].prompt.contains("- b:"));
    // Identical to a prompt built directly with exactly that context.
    let cello = engine.registry.get_agent(&String::from("c")).unwrap();
    let ctx = vec![ContextEntry { key: String::from("a"), value: String::from("A wrote this") }];
    assert_eq!(second[0].prompt, build_agent_prompt(&cello, "write", Some(&ctx)));

    engine.advance(&mut run, vec![ok("c", "C polished it")]);
    let result = engine.run_result(run);
    assert_eq!(result.status, RunStatus::Completed);
    // B's failure is recorded explicitly in the first phase's output.
    assert_eq!(result.phase_outputs.len(), 2);
    assert_eq!(result.phase_outputs[0].phase_name, "draft");
    assert_eq!(result.phase_outputs[0].results[1].agent_id, "b");
    assert!(matches!(
        result.phase_outputs[0].results[1].outcome,
        GenEvent::Failure { .. }
    ));
    assert_eq!(result.final_output.unwrap(), "C polished it\n\n");
    assert!(result.error.is_none());
}

#[test]
fn all_failed_phase_aborts_the_run() {
    let mut engine = sample_engine();
    engine.register_workflow(two_phase_def(None)).unwrap();
    let mut run = engine.start_run(&String::from("song"), &String::from("write"), &None).unwrap();

    engine.advance(&mut run, vec![failed("a", "rate limited"), failed("b", "boom")]);
    assert_eq!(run.status, RunStatus::Aborted);

    let result = engine.run_result(run);
    assert_eq!(result.status, RunStatus::Aborted);
    // Only the attempted phase is recorded, with every agent's failure.
    assert_eq!(result.phase_outputs.len(), 1);
    assert!(matches!(result.phase_outputs[0].results[0].outcome, GenEvent::Failure { .. }));
    assert!(matches!(result.phase_outputs[0].results[1].outcome, GenEvent::Failure { .. }));
    assert!(result.final_output.is_none());
    match result.error {
        Some(OrchestratorError::PhaseFailed { phase_index }) => assert_eq!(phase_index, 0),
        _ => panic!("expected the phase-failed error"),
    }
}

#[test]
fn designated_synthesis_agent_output_is_the_final_text() {
    let mut engine = sample_engine();
    engine.register_workflow(two_phase_def(Some("c"))).unwrap();
    let mut run = engine.start_run(&String::from("song"), &String::from("write"), &None).unwrap();
    engine.advance(&mut run, vec![ok("a", "A out"), ok("b", "B out")]);
    engine.advance(&mut run, vec![ok("c", "the whole song")]);
    let result = engine.run_result(run);
    assert_eq!(result.final_output.unwrap(), "the whole song");
}

#[test]
fn options_seed_the_first_phase_context() {
    let mut engine = sample_engine();
    engine.register_workflow(two_phase_def(None)).unwrap();
    let options = Some(WorkflowOptions {
        theme: Some(String::from("dusk")),
        genre: None,
        tone: Some(String::from("calm")),
        scope: None,
    });
    let run = engine.start_run(&String::from("song"), &String::from("write"), &options).unwrap();
    let prompts = engine.phase_prompts(&run);
    assert!(prompts[0].prompt.contains("\nContext:\n- theme: dusk\n- tone: calm\n"));
}

use arcanea_core::agents::AgentRecord;
use arcanea_core::agents::AgentRegistry;
use arcanea_core::errors::OrchestratorError;
use arcanea_core::invocation::attach_storage_outcome;
use arcanea_core::invocation::complete_invocation;
use arcanea_core::invocation::elapsed_duration_ms;
use arcanea_core::invocation::make_prompt_record;
use arcanea_core::invocation::prepare_invocation;
use arcanea_core::invocation::record_invocation;
use arcanea_core::prompt::ContextEntry;
use arcanea_core::prompt::build_agent_prompt;

fn sample_registry() -> AgentRegistry {
    let (reg, _) = AgentRegistry::load_from_records(vec![AgentRecord {
        id: String::from("lyra"),
        name: String::from("Lyra"),
        court: String::from("Lunar"),
        specialty: String::from("melody"),
        frequency: 528,
    }])
    .unwrap();
    reg
}

#[test]
fn unknown_agent_is_not_found_before_any_generation() {
    let reg = sample_registry();
    let r = prepare_invocation(&reg, &String::from("nobody"), &String::from("compose"), &None);
    match r {
        Err(OrchestratorError::AgentNotFound { agent_id }) => assert_eq!(agent_id, "nobody"),
        _ => panic!("expected agent-not-found"),
    }
}

#[test]
fn preparation_builds_the_agent_prompt() {
    let reg = sample_registry();
    let ctx = vec![ContextEntry { key: String::from("mood"), value: String::from("calm") }];
    let p = prepare_invocation(
        &reg,
        &String::from("lyra"),
        &String::from("compose"),
        &Some(ctx.clone()),
    );
    let prepared = p.unwrap();
    assert_eq!(prepared.agent.name, "Lyra");
    assert_eq!(prepared.prompt, build_agent_prompt(&prepared.agent, "compose", Some(&ctx)));
}

#[test]
fn elapsed_time_is_clamped_and_exact() {
    assert_eq!(elapsed_duration_ms(100, 350), 250);
    assert_eq!(elapsed_duration_ms(350, 100), 0);
    assert_eq!(elapsed_duration_ms(-5, 5), 10);
}

#[test]
fn finished_invocation_snapshots_agent_identity() {
    let reg = sample_registry();
    let agent = reg.get_agent(&String::from("lyra")).unwrap();
    let r = complete_invocation(
        &agent,
        String::from("some-id"),
        String::from("a tune"),
        100,
        160,
        String::from("2024-01-01T00:00:00+00:00"),
    );
    assert_eq!(r.id, "some-id");
    assert_eq!(r.agent, "Lyra");
    assert_eq!(r.agent_id, "lyra");
    assert_eq!(r.specialty, "melody");
    assert_eq!(r.response, "a tune");
    assert_eq!(r.execution_time_ms, 60);
    assert_eq!(r.timestamp, "2024-01-01T00:00:00+00:00");
}

#[test]
fn storage_failure_never_discards_the_result() {
    let reg = sample_registry();
    let agent = reg.get_agent(&String::from("lyra")).unwrap();
    let r = complete_invocation(
        &agent,
        String::from("some-id"),
        String::from("a tune"),
        0,
        1,
        String::from("t"),
    );
    let (kept, err) = attach_storage_outcome(r, Err(String::from("disk full")));
    assert_eq!(kept.response, "a tune");
    match err {
        Some(OrchestratorError::Storage { reason }) => assert_eq!(reason, "disk full"),
        _ => panic!("expected a storage error"),
    }
    let r2 = complete_invocation(
        &agent,
        String::from("id2"),
        String::from("b tune"),
        0,
        1,
        String::from("t"),
    );
    let (kept2, err2) = attach_storage_outcome(r2, Ok(()));
    assert_eq!(kept2.response, "b tune");
    assert!(err2.is_none());
}

#[test]
fn recorded_invocations_get_fresh_ids_and_timestamps() {
    let reg = sample_registry();
    let agent = reg.get_agent(&String::from("lyra")).unwrap();
    let r = record_invocation(&agent, String::from("a tune"), 100, 175);
    assert_eq!(r.id.len(), 36);
    assert!(!r.timestamp.is_empty());
    assert_eq!(r.agent, "Lyra");
    assert_eq!(r.execution_time_ms, 75);
}

#[test]
fn prompt_records_keep_their_fields_under_a_fresh_id() {
    let rec = make_prompt_record(
        String::from("intro"),
        String::from("You are..."),
        vec![String::from("persona"), String::from("intro")],
    );
    assert_eq!(rec.name, "intro");
    assert_eq!(rec.content, "You are...");
    assert_eq!(rec.tags.len(), 2);
    assert_eq!(rec.id.len(), 36);
    assert!(!rec.created_at.is_empty());
}

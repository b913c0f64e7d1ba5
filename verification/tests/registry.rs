use arcanea_core::agents::Agent;
use arcanea_core::agents::AgentRecord;
use arcanea_core::agents::AgentRegistry;
use arcanea_core::errors::OrchestratorError;

fn record(id: &str, name: &str) -> AgentRecord {
    AgentRecord {
        id: String::from(id),
        name: String::from(name),
        court: String::from("Lunar"),
        specialty: String::from("melody"),
        frequency: 528,
    }
}

fn count_id(agents: &Vec<Agent>, id: &str) -> usize {
    agents.iter().filter(|a| a.id == id).count()
}

#[test]
fn load_keeps_valid_records_in_order() {
    let (reg, skipped) =
        AgentRegistry::load_from_records(vec![record("a", "Alta"), record("b", "Brio")]).unwrap();
    assert_eq!(skipped, 0);
    let all = reg.get_all_agents();
    assert_eq!(all.len(), 2);
    assert_eq!(all[0].id, "a");
    assert_eq!(all[1].id, "b");
    assert_eq!(all[0].name, "Alta");
}

#[test]
fn load_skips_malformed_records() {
    let (reg, skipped) = AgentRegistry::load_from_records(vec![
        record("", "Nameless"),
        record("a", "Alta"),
        record("b", ""),
    ])
    .unwrap();
    assert_eq!(skipped, 2);
    assert_eq!(reg.get_all_agents().len(), 1);
    assert!(reg.get_agent(&String::from("a")).is_some());
}

#[test]
fn load_keeps_first_of_duplicate_ids() {
    let (reg, skipped) =
        AgentRegistry::load_from_records(vec![record("a", "Alta"), record("a", "Other")]).unwrap();
    assert_eq!(skipped, 1);
    let found = reg.get_agent(&String::from("a")).unwrap();
    assert_eq!(found.name, "Alta");
}

#[test]
fn load_with_no_usable_record_is_fatal() {
    let r = AgentRegistry::load_from_records(vec![record("", ""), record("x", "")]);
    assert!(matches!(r, Err(OrchestratorError::RegistryLoad { .. })));
}

#[test]
fn get_agent_missing_is_a_plain_none() {
    let (reg, _) = AgentRegistry::load_from_records(vec![record("a", "Alta")]).unwrap();
    assert!(reg.get_agent(&String::from("zz")).is_none());
}

#[test]
fn found_agent_is_listed_exactly_once() {
    let (reg, _) = AgentRegistry::load_from_records(vec![
        record("a", "Alta"),
        record("b", "Brio"),
        record("c", "Cello"),
    ])
    .unwrap();
    let found = reg.get_agent(&String::from("b")).unwrap();
    let all = reg.get_all_agents();
    assert_eq!(count_id(&all, "b"), 1);
    assert_eq!(all[1].name, found.name);
}

#[test]
fn snapshot_is_an_independent_equal_view() {
    let (reg, _) =
        AgentRegistry::load_from_records(vec![record("a", "Alta"), record("b", "Brio")]).unwrap();
    let snap = reg.snapshot();
    assert_eq!(snap.get_all_agents().len(), 2);
    assert_eq!(snap.get_agent(&String::from("a")).unwrap().name, "Alta");
}

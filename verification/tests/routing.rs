use arcanea_core::agents::Agent;
use arcanea_core::errors::OrchestratorError;
use arcanea_core::router::GenEvent;
use arcanea_core::router::GenStep;
use arcanea_core::router::ProviderRoute;
use arcanea_core::router::RouterConfig;
use arcanea_core::router::generation_start;
use arcanea_core::router::generation_step;
use arcanea_core::router::resolve_generation;
use arcanea_core::router::route_provider;

fn agent(specialty: &str) -> Agent {
    Agent {
        id: String::from("lyra"),
        name: String::from("Lyra"),
        court: String::from("Lunar"),
        specialty: String::from(specialty),
        frequency: 528,
    }
}

fn config(max_attempts: u64, fallbacks: Vec<&str>) -> RouterConfig {
    RouterConfig {
        routes: vec![ProviderRoute {
            specialty: String::from("melody"),
            provider: String::from("muse"),
        }],
        default_provider: String::from("primary"),
        max_attempts,
        fallback_providers: fallbacks.into_iter().map(String::from).collect(),
    }
}

fn fail(cause: &str) -> GenEvent {
    GenEvent::Failure { cause: String::from(cause) }
}

fn succeed(text: &str) -> GenEvent {
    GenEvent::Success { text: String::from(text) }
}

#[test]
fn routing_table_picks_mapped_provider() {
    let cfg = config(1, vec![]);
    assert_eq!(route_provider(&cfg, &agent("melody")), "muse");
}

#[test]
fn unmapped_specialty_falls_to_default_provider() {
    let cfg = config(1, vec![]);
    assert_eq!(route_provider(&cfg, &agent("percussion")), "primary");
}

#[test]
fn first_call_goes_to_routed_provider() {
    let cfg = config(3, vec!["backup"]);
    match generation_start(&cfg, &agent("melody")) {
        GenStep::Call { provider, progress } => {
            assert_eq!(provider, "muse");
            assert_eq!(progress.provider_index, 0);
            assert_eq!(progress.attempt, 0);
        }
        _ => panic!("expected a call"),
    }
}

#[test]
fn success_ends_the_generation() {
    let cfg = config(3, vec!["backup"]);
    let a = agent("melody");
    let progress = match generation_start(&cfg, &a) {
        GenStep::Call { progress, .. } => progress,
        _ => panic!("expected a call"),
    };
    match generation_step(&cfg, &a, progress, succeed("done")) {
        GenStep::Done { text } => assert_eq!(text, "done"),
        _ => panic!("expected completion"),
    }
}

#[test]
fn failure_retries_then_falls_back() {
    let cfg = config(2, vec!["backup"]);
    let a = agent("melody");
    let p0 = match generation_start(&cfg, &a) {
        GenStep::Call { progress, .. } => progress,
        _ => panic!("expected a call"),
    };
    // First failure: retry on the same provider.
    let p1 = match generation_step(&cfg, &a, p0, fail("timeout")) {
        GenStep::Call { provider, progress } => {
            assert_eq!(provider, "muse");
            assert_eq!(progress.attempt, 1);
            progress
        }
        _ => panic!("expected a retry"),
    };
    // Second failure: attempts exhausted, move to the fallback.
    match generation_step(&cfg, &a, p1, fail("timeout")) {
        GenStep::Call { provider, progress } => {
            assert_eq!(provider, "backup");
            assert_eq!(progress.provider_index, 1);
            assert_eq!(progress.attempt, 0);
        }
        _ => panic!("expected the fallback"),
    }
}

#[test]
fn fallback_success_after_three_failed_retries() {
    // The routed provider always fails its three attempts; the single
    // fallback succeeds on its first call; the caller sees only success.
    let cfg = config(3, vec!["backup"]);
    let events = vec![
        fail("down"),
        fail("down"),
        fail("down"),
        succeed("from the backup"),
        fail("unused"),
        fail("unused"),
    ];
    let r = resolve_generation(&cfg, &agent("melody"), &events);
    assert_eq!(r.unwrap(), "from the backup");
}

#[test]
fn exhausted_chain_reports_last_cause() {
    let cfg = config(2, vec![]);
    let events = vec![fail("first cause"), fail("last cause")];
    match resolve_generation(&cfg, &agent("melody"), &events) {
        Err(OrchestratorError::Generation { last_cause }) => {
            assert_eq!(last_cause, "last cause");
        }
        _ => panic!("expected a generation failure"),
    }
}

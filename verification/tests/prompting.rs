use arcanea_core::agents::Agent;
use arcanea_core::numeral::u64_to_string;
use arcanea_core::prompt::ContextEntry;
use arcanea_core::prompt::build_agent_prompt;

fn lyra() -> Agent {
    Agent {
        id: String::from("lyra"),
        name: String::from("Lyra"),
        court: String::from("Lunar"),
        specialty: String::from("melody"),
        frequency: 528,
    }
}

fn entry(key: &str, value: &str) -> ContextEntry {
    ContextEntry { key: String::from(key), value: String::from(value) }
}

#[test]
fn decimal_rendering_exact_values() {
    assert_eq!(u64_to_string(0), "0");
    assert_eq!(u64_to_string(7), "7");
    assert_eq!(u64_to_string(528), "528");
    assert_eq!(u64_to_string(18446744073709551615), "18446744073709551615");
}

#[test]
fn prompt_without_context_exact() {
    let p = build_agent_prompt(&lyra(), "compose a motif", None);
    assert_eq!(
        p,
        "You are Lyra from the Lunar Court.\nSpecialty: melody\nFrequency: 528Hz\n\n\
         Task: compose a motif\n\nProvide your specialized contribution as Lyra."
    );
}

#[test]
fn prompt_with_context_exact() {
    let ctx = vec![entry("motif", "rising fourth"), entry("mood", "calm")];
    let p = build_agent_prompt(&lyra(), "compose a motif", Some(&ctx));
    assert_eq!(
        p,
        "You are Lyra from the Lunar Court.\nSpecialty: melody\nFrequency: 528Hz\n\n\
         Task: compose a motif\n\nContext:\n- motif: rising fourth\n- mood: calm\n\n\
         Provide your specialized contribution as Lyra."
    );
}

#[test]
fn prompt_is_deterministic() {
    let ctx = vec![entry("motif", "rising fourth")];
    let a = build_agent_prompt(&lyra(), "compose", Some(&ctx));
    let b = build_agent_prompt(&lyra(), "compose", Some(&ctx));
    assert_eq!(a, b);
}

#[test]
fn prompt_lists_every_pair_exactly_once() {
    let ctx = vec![entry("k1", "v1"), entry("k2", "v2"), entry("k3", "v3")];
    let p = build_agent_prompt(&lyra(), "compose", Some(&ctx));
    for (k, v) in [("k1", "v1"), ("k2", "v2"), ("k3", "v3")] {
        let line = format!("- {}: {}\n", k, v);
        assert_eq!(p.matches(&line).count(), 1);
    }
}

#[test]
fn empty_context_still_announced_but_empty() {
    let ctx: Vec<ContextEntry> = Vec::new();
    let p = build_agent_prompt(&lyra(), "compose", Some(&ctx));
    assert!(p.contains("\nContext:\n\nProvide"));
}

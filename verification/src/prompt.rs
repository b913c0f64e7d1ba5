//! Prompt construction: a pure, deterministic rendering of (agent, task,
//! context) into the text handed to a generation provider. Both the
//! single-agent path and every agent-in-phase call inside the workflow
//! engine build prompts here, so the prompt shape is identical on all paths.

use vstd::prelude::*;
use crate::agents::Agent;
use crate::numeral::dec_digits;
use crate::numeral::u64_to_string;

verus! {

/// One key/value pair of accumulated context.
pub struct ContextEntry {
    pub key: String,
    pub value: String,
}

impl Clone for ContextEntry {
    fn clone(&self) -> (r: Self)
        ensures
            r == *self,
    {
        ContextEntry { key: self.key.clone(), value: self.value.clone() }
    }
}

/// The rendering of one context pair.
pub open spec fn entry_text(e: ContextEntry) -> Seq<char> {
    "- "@ + e.key@ + ": "@ + e.value@ + "\n"@
}

/// The rendering of a run of context pairs, one line each, in order.
pub open spec fn entries_text(es: Seq<ContextEntry>) -> Seq<char>
    decreases es.len(),
{
    if es.len() == 0 {
        Seq::empty()
    } else {
        entry_text(es[0]) + entries_text(es.drop_first())
    }
}

/// Everything before the context block: agent identity framing, then task.
pub open spec fn prompt_prefix(a: Agent, task: Seq<char>) -> Seq<char> {
    "You are "@ + a.name@ + " from the "@ + a.court@ + " Court.\n"@ + "Specialty: "@
        + a.specialty@ + "\n"@ + "Frequency: "@ + dec_digits(a.frequency as nat) + "Hz\n\n"@
        + "Task: "@ + task + "\n"@
}

/// The closing directive naming the agent.
pub open spec fn prompt_suffix(a: Agent) -> Seq<char> {
    "\nProvide your specialized contribution as "@ + a.name@ + "."@
}

/// The full prompt for (agent, task, context). An absent context contributes
/// nothing; a present one is announced and rendered pair by pair.
pub open spec fn prompt_text(a: Agent, task: Seq<char>, ctx: Option<Seq<ContextEntry>>) -> Seq<
    char,
> {
    prompt_prefix(a, task) + (match ctx {
        Some(es) => "\nContext:\n"@ + entries_text(es),
        None => Seq::<char>::empty(),
    }) + prompt_suffix(a)
}

/// Appending one pair extends the rendering at the end.
pub proof fn lemma_entries_text_snoc(es: Seq<ContextEntry>, e: ContextEntry)
    ensures
        entries_text(es.push(e)) == entries_text(es) + entry_text(e),
    decreases es.len(),
{
    if es.len() == 0 {
        assert(es.push(e)[0] == e);
        assert(es.push(e).drop_first() =~= es);
        assert(entries_text(es.push(e)) =~= entries_text(es) + entry_text(e));
    } else {
        assert(es.push(e)[0] == es[0]);
        assert(es.push(e).drop_first() =~= es.drop_first().push(e));
        lemma_entries_text_snoc(es.drop_first(), e);
        assert(entries_text(es.push(e)) =~= entries_text(es) + entry_text(e));
    }
}

/// Law: the rendering of a run of pairs holds each pair exactly once, at its
/// own position — what stands before pair `i` is exactly the rendering of
/// the pairs before it, and what follows is exactly that of the pairs after.
pub proof fn lemma_entries_text_splits(es: Seq<ContextEntry>, i: int)
    requires
        0 <= i < es.len(),
    ensures
        entries_text(es) == entries_text(es.take(i)) + entry_text(es[i]) + entries_text(
            es.skip(i + 1),
        ),
    decreases i,
{
    if i == 0 {
        assert(es.take(0) =~= Seq::<ContextEntry>::empty());
        assert(es.skip(1) =~= es.drop_first());
        assert(entries_text(es) =~= entries_text(es.take(0)) + entry_text(es[0]) + entries_text(
            es.skip(1),
        ));
    } else {
        lemma_entries_text_splits(es.drop_first(), i - 1);
        assert(es.take(i)[0] == es[0]);
        assert(es.take(i).drop_first() =~= es.drop_first().take(i - 1));
        assert(es.drop_first()[i - 1] == es[i]);
        assert(es.drop_first().skip(i) =~= es.skip(i + 1));
        assert(entries_text(es) =~= entries_text(es.take(i)) + entry_text(es[i]) + entries_text(
            es.skip(i + 1),
        ));
    }
}

/// Law: a prompt built with context lists every context pair exactly once,
/// between the framing prefix and the closing directive.
pub proof fn lemma_prompt_lists_each_entry_once(
    a: Agent,
    task: Seq<char>,
    es: Seq<ContextEntry>,
    i: int,
)
    requires
        0 <= i < es.len(),
    ensures
        prompt_text(a, task, Some(es)) == prompt_prefix(a, task) + "\nContext:\n"@ + entries_text(
            es.take(i),
        ) + entry_text(es[i]) + entries_text(es.skip(i + 1)) + prompt_suffix(a),
{
    lemma_entries_text_splits(es, i);
    assert(prompt_text(a, task, Some(es)) =~= prompt_prefix(a, task) + "\nContext:\n"@
        + entries_text(es.take(i)) + entry_text(es[i]) + entries_text(es.skip(i + 1))
        + prompt_suffix(a));
}

/// Law: prompt construction is deterministic — identical (agent, task,
/// context) inputs yield identical prompt text.
pub proof fn lemma_prompt_deterministic(
    a1: Agent,
    task1: Seq<char>,
    ctx1: Option<Seq<ContextEntry>>,
    a2: Agent,
    task2: Seq<char>,
    ctx2: Option<Seq<ContextEntry>>,
)
    requires
        a1 == a2,
        task1 == task2,
        ctx1 == ctx2,
    ensures
        prompt_text(a1, task1, ctx1) == prompt_text(a2, task2, ctx2),
{
}

/// Builds the agent-specific prompt from task, optional context and the
/// agent's persona. Pure and side-effect-free; every context pair present
/// appears exactly once, in the order given.
pub fn build_agent_prompt(agent: &Agent, task: &str, context: Option<&Vec<ContextEntry>>) -> (p:
    String)
    ensures
        p@ == prompt_text(
            *agent,
            task@,
            match context {
                Some(c) => Some(c@),
                None => None,
            },
        ),
{
    let mut p = String::new();
    p.append("You are ");
    p.append(agent.name.as_str());
    p.append(" from the ");
    p.append(agent.court.as_str());
    p.append(" Court.\n");
    p.append("Specialty: ");
    p.append(agent.specialty.as_str());
    p.append("\n");
    p.append("Frequency: ");
    let freq = u64_to_string(agent.frequency);
    p.append(freq.as_str());
    p.append("Hz\n\n");
    p.append("Task: ");
    p.append(task);
    p.append("\n");
    proof {
        assert(p@ =~= prompt_prefix(*agent, task@));
    }
    if let Some(ctx) = context {
        p.append("\nContext:\n");
        let ghost base = p@;
        let n = ctx.len();
        let mut i: usize = 0;
        proof {
            assert(p@ =~= base + entries_text(ctx@.take(0)));
        }
        while i < n
            invariant
                i <= n,
                n == ctx@.len(),
                p@ == base + entries_text(ctx@.take(i as int)),
                base == prompt_prefix(*agent, task@) + "\nContext:\n"@,
            decreases n - i,
        {
            p.append("- ");
            p.append(ctx[i].key.as_str());
            p.append(": ");
            p.append(ctx[i].value.as_str());
            p.append("\n");
            proof {
                lemma_entries_text_snoc(ctx@.take(i as int), ctx@[i as int]);
                assert(ctx@.take(i as int).push(ctx@[i as int]) =~= ctx@.take(i as int + 1));
                assert(p@ =~= base + entries_text(ctx@.take(i as int + 1)));
            }
            i = i + 1;
        }
        proof {
            assert(ctx@.take(n as int) =~= ctx@);
        }
    }
    p.append("\nProvide your specialized contribution as ");
    p.append(agent.name.as_str());
    p.append(".");
    proof {
        assert(p@ =~= prompt_text(
            *agent,
            task@,
            match context {
                Some(c) => Some(c@),
                None => None,
            },
        ));
    }
    p
}

} // verus!

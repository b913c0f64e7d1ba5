//! The agent registry: the catalog of named personas, loaded once from an
//! external record source, read-mostly afterwards. Lookup never fails for a
//! missing id — absence is a representable outcome.

use vstd::prelude::*;
use crate::errors::OrchestratorError;

verus! {

/// A named persona with a domain specialty. Immutable once loaded; an
/// invocation is stateless given (agent, task, context).
pub struct Agent {
    /// Stable string key.
    pub id: String,
    pub name: String,
    /// Organizational grouping.
    pub court: String,
    /// Free-text domain.
    pub specialty: String,
    /// Numeric attribute used for prompt flavor only.
    pub frequency: u64,
}

impl Clone for Agent {
    fn clone(&self) -> (r: Self)
        ensures
            r == *self,
    {
        Agent {
            id: self.id.clone(),
            name: self.name.clone(),
            court: self.court.clone(),
            specialty: self.specialty.clone(),
            frequency: self.frequency,
        }
    }
}

/// A raw catalog record as the agent source hands it over; not yet checked.
pub struct AgentRecord {
    pub id: String,
    pub name: String,
    pub court: String,
    pub specialty: String,
    pub frequency: u64,
}

/// A record is usable when it carries an identity: a nonempty id and name.
pub open spec fn record_valid(r: AgentRecord) -> bool {
    r.id@.len() > 0 && r.name@.len() > 0
}

/// The agent a record describes.
pub open spec fn agent_of_record(r: AgentRecord) -> Agent {
    Agent { id: r.id, name: r.name, court: r.court, specialty: r.specialty, frequency: r.frequency }
}

/// The first agent in `s` whose id is `id`, if any.
pub open spec fn find_agent(s: Seq<Agent>, id: Seq<char>) -> Option<Agent>
    decreases s.len(),
{
    if s.len() == 0 {
        None
    } else if s[0].id@ == id {
        Some(s[0])
    } else {
        find_agent(s.drop_first(), id)
    }
}

/// How many agents in `s` carry the id.
pub open spec fn count_with_id(s: Seq<Agent>, id: Seq<char>) -> nat
    decreases s.len(),
{
    if s.len() == 0 {
        0
    } else {
        (if s[0].id@ == id {
            1nat
        } else {
            0nat
        }) + count_with_id(s.drop_first(), id)
    }
}

/// The catalog a load keeps, given the records still to read and the agents
/// kept so far: valid records only, first occurrence of each id.
pub open spec fn loaded_agents(rs: Seq<AgentRecord>, acc: Seq<Agent>) -> Seq<Agent>
    decreases rs.len(),
{
    if rs.len() == 0 {
        acc
    } else {
        loaded_agents(rs.drop_first(), loaded_step(acc, rs[0]))
    }
}

/// One step of a load: keep the record if it is valid and its id is new.
pub open spec fn loaded_step(acc: Seq<Agent>, r: AgentRecord) -> Seq<Agent> {
    if record_valid(r) && find_agent(acc, r.id@) is None {
        acc.push(agent_of_record(r))
    } else {
        acc
    }
}

/// Owns the mapping from agent id to agent; ids are unique.
pub struct AgentRegistry {
    pub agents: Vec<Agent>,
}

impl View for AgentRegistry {
    type V = Seq<Agent>;

    open spec fn view(&self) -> Seq<Agent> {
        self.agents@
    }
}

proof fn lemma_find_agent_none(s: Seq<Agent>, id: Seq<char>)
    ensures
        find_agent(s, id) is None <==> forall|i: int| 0 <= i < s.len() ==> s[i].id@ != id,
    decreases s.len(),
{
    if s.len() > 0 {
        lemma_find_agent_none(s.drop_first(), id);
        if find_agent(s, id) is None {
            assert forall|i: int| 0 <= i < s.len() implies s[i].id@ != id by {
                if 0 < i < s.len() {
                    assert(s.drop_first()[i - 1] == s[i]);
                }
            };
        }
        if forall|i: int| 0 <= i < s.len() ==> s[i].id@ != id {
            assert forall|i: int|
                0 <= i < s.drop_first().len() implies s.drop_first()[i].id@ != id by {
                assert(s.drop_first()[i] == s[i + 1]);
            };
        }
    }
}

proof fn lemma_find_agent_some(s: Seq<Agent>, id: Seq<char>, a: Agent)
    requires
        find_agent(s, id) == Some(a),
    ensures
        a.id@ == id,
        exists|i: int| 0 <= i < s.len() && s[i] == a,
    decreases s.len(),
{
    if s.len() > 0 {
        if s[0].id@ == id {
            assert(s[0] == a);
        } else {
            lemma_find_agent_some(s.drop_first(), id, a);
            let i = choose|i: int| 0 <= i < s.drop_first().len() && s.drop_first()[i] == a;
            assert(s[i + 1] == a);
        }
    }
}

proof fn lemma_count_zero(s: Seq<Agent>, id: Seq<char>)
    requires
        forall|i: int| 0 <= i < s.len() ==> s[i].id@ != id,
    ensures
        count_with_id(s, id) == 0,
    decreases s.len(),
{
    if s.len() > 0 {
        assert forall|i: int|
            0 <= i < s.drop_first().len() implies s.drop_first()[i].id@ != id by {
            assert(s.drop_first()[i] == s[i + 1]);
        };
        lemma_count_zero(s.drop_first(), id);
    }
}

proof fn lemma_count_one_when_unique(s: Seq<Agent>, id: Seq<char>)
    requires
        forall|i: int, j: int| 0 <= i < j < s.len() ==> s[i].id@ != s[j].id@,
        exists|i: int| 0 <= i < s.len() && s[i].id@ == id,
    ensures
        count_with_id(s, id) == 1,
    decreases s.len(),
{
    let w = choose|i: int| 0 <= i < s.len() && s[i].id@ == id;
    if s[0].id@ == id {
        assert forall|i: int|
            0 <= i < s.drop_first().len() implies s.drop_first()[i].id@ != id by {
            assert(s.drop_first()[i] == s[i + 1]);
        };
        lemma_count_zero(s.drop_first(), id);
    } else {
        assert forall|i: int, j: int|
            0 <= i < j < s.drop_first().len() implies s.drop_first()[i].id@
            != s.drop_first()[j].id@ by {
            assert(s.drop_first()[i] == s[i + 1]);
            assert(s.drop_first()[j] == s[j + 1]);
        };
        assert(s.drop_first()[w - 1] == s[w]);
        lemma_count_one_when_unique(s.drop_first(), id);
    }
}

proof fn lemma_loaded_agents_snoc(rs: Seq<AgentRecord>, acc: Seq<Agent>, r: AgentRecord)
    ensures
        loaded_agents(rs.push(r), acc) == loaded_step(loaded_agents(rs, acc), r),
    decreases rs.len(),
{
    if rs.len() == 0 {
        assert(rs.push(r).drop_first() =~= rs);
        assert(rs.push(r)[0] == r);
        assert(loaded_agents(rs, loaded_step(acc, r)) == loaded_step(acc, r));
        assert(loaded_agents(rs, acc) == acc);
    } else {
        assert(rs.push(r)[0] == rs[0]);
        assert(rs.push(r).drop_first() =~= rs.drop_first().push(r));
        lemma_loaded_agents_snoc(rs.drop_first(), loaded_step(acc, rs[0]), r);
        assert(loaded_agents(rs.push(r), acc) == loaded_agents(
            rs.drop_first().push(r),
            loaded_step(acc, rs[0]),
        ));
        assert(loaded_agents(rs, acc) == loaded_agents(rs.drop_first(), loaded_step(acc, rs[0])));
    }
}

/// Ids are unique across the sequence.
pub open spec fn ids_unique(s: Seq<Agent>) -> bool {
    forall|i: int, j: int| 0 <= i < j < s.len() ==> s[i].id@ != s[j].id@
}

impl AgentRegistry {
    /// Ids are unique across the catalog.
    pub open spec fn wf(&self) -> bool {
        ids_unique(self@)
    }

    /// Builds the catalog from raw records. A malformed record is skipped,
    /// as is one whose id repeats an earlier record's; the second component
    /// of a successful result counts the records skipped. A load that keeps
    /// zero agents is fatal: an empty registry is unusable.
    pub fn load_from_records(records: Vec<AgentRecord>) -> (r: Result<
        (AgentRegistry, usize),
        OrchestratorError,
    >)
        ensures
            match r {
                Ok(p) => p.0.wf() && p.0@ == loaded_agents(records@, Seq::empty())
                    && p.0@.len() > 0 && p.1 == records@.len() - p.0@.len(),
                Err(e) => e is RegistryLoad && loaded_agents(records@, Seq::empty()).len() == 0,
            },
    {
        let mut agents: Vec<Agent> = Vec::new();
        let n = records.len();
        let mut i: usize = 0;
        while i < n
            invariant
                i <= n,
                n == records@.len(),
                agents@ == loaded_agents(records@.take(i as int), Seq::empty()),
                agents@.len() <= i,
                ids_unique(agents@),
            decreases n - i,
        {
            let rec = &records[i];
            let keep: bool = if rec.id.as_str().is_empty() || rec.name.as_str().is_empty() {
                false
            } else {
                !contains_id(&agents, &rec.id)
            };
            proof {
                lemma_loaded_agents_snoc(records@.take(i as int), Seq::empty(), records@[i as int]);
                assert(records@.take(i as int).push(records@[i as int]) =~= records@.take(
                    i as int + 1,
                ));
            }
            if keep {
                let a = Agent {
                    id: rec.id.clone(),
                    name: rec.name.clone(),
                    court: rec.court.clone(),
                    specialty: rec.specialty.clone(),
                    frequency: rec.frequency,
                };
                proof {
                    lemma_find_agent_none(agents@, a.id@);
                }
                agents.push(a);
            }
            i = i + 1;
        }
        proof {
            assert(records@.take(n as int) =~= records@);
        }
        if agents.len() == 0 {
            Err(
                OrchestratorError::RegistryLoad {
                    reason: String::from_str("no usable agent records"),
                },
            )
        } else {
            let skipped = n - agents.len();
            Ok((AgentRegistry { agents }, skipped))
        }
    }

    /// Returns the agent with the given id, or `None`: a missing id is a
    /// normal outcome, never a failure.
    pub fn get_agent(&self, id: &String) -> (r: Option<Agent>)
        ensures
            r == find_agent(self@, id@),
    {
        let n = self.agents.len();
        let mut i: usize = 0;
        proof {
            assert(self@.skip(0) =~= self@);
        }
        while i < n
            invariant
                i <= n,
                n == self.agents@.len(),
                find_agent(self@, id@) == find_agent(self@.skip(i as int), id@),
            decreases n - i,
        {
            if self.agents[i].id == *id {
                proof {
                    assert(self@.skip(i as int)[0] == self@[i as int]);
                }
                return Some(self.agents[i].clone());
            }
            proof {
                assert(self@.skip(i as int)[0] == self@[i as int]);
                assert(self@.skip(i as int).drop_first() =~= self@.skip(i as int + 1));
            }
            i = i + 1;
        }
        proof {
            assert(self@.skip(n as int).len() == 0);
        }
        None
    }

    /// A snapshot sequence of all agents in registration order.
    pub fn get_all_agents(&self) -> (r: Vec<Agent>)
        ensures
            r@ == self@,
    {
        let mut out: Vec<Agent> = Vec::new();
        let n = self.agents.len();
        let mut i: usize = 0;
        while i < n
            invariant
                i <= n,
                n == self.agents@.len(),
                out@ =~= self@.take(i as int),
            decreases n - i,
        {
            out.push(self.agents[i].clone());
            proof {
                assert(self@.take(i as int).push(self@[i as int]) =~= self@.take(i as int + 1));
            }
            i = i + 1;
        }
        proof {
            assert(self@.take(n as int) =~= self@);
        }
        out
    }

    /// A cheap read-only duplicate, so a dependent component can hold a
    /// point-in-time view that later reloads do not disturb.
    pub fn snapshot(&self) -> (r: AgentRegistry)
        ensures
            r@ == self@,
            r.wf() == self.wf(),
    {
        AgentRegistry { agents: self.get_all_agents() }
    }
}

/// Whether some agent in the vector carries the id.
fn contains_id(agents: &Vec<Agent>, id: &String) -> (b: bool)
    ensures
        b == (find_agent(agents@, id@) is Some),
{
    let n = agents.len();
    let mut i: usize = 0;
    proof {
        assert(agents@.skip(0) =~= agents@);
    }
    while i < n
        invariant
            i <= n,
            n == agents@.len(),
            find_agent(agents@, id@) == find_agent(agents@.skip(i as int), id@),
        decreases n - i,
    {
        if agents[i].id == *id {
            proof {
                assert(agents@.skip(i as int)[0] == agents@[i as int]);
            }
            return true;
        }
        proof {
            assert(agents@.skip(i as int)[0] == agents@[i as int]);
            assert(agents@.skip(i as int).drop_first() =~= agents@.skip(i as int + 1));
        }
        i = i + 1;
    }
    proof {
        assert(agents@.skip(n as int).len() == 0);
    }
    false
}

/// Law: an agent found under an id is listed by the full catalog exactly
/// once — lookup and enumeration agree.
pub proof fn lemma_found_agent_listed_once(reg: AgentRegistry, id: Seq<char>, a: Agent)
    requires
        reg.wf(),
        find_agent(reg@, id) == Some(a),
    ensures
        a.id@ == id,
        reg@.contains(a),
        count_with_id(reg@, id) == 1,
{
    lemma_find_agent_some(reg@, id, a);
    lemma_count_one_when_unique(reg@, id);
}

} // verus!

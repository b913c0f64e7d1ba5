//! The AI routing layer: selects a generation provider for an agent by a
//! deterministic rule, and applies the retry and fallback policy around the
//! outbound generation calls. The calls themselves are asynchronous outside
//! work; the policy here is a pure step function from (progress, outcome of
//! the last call) to the next action, which the runtime drives. A per-call
//! timeout is the runtime's to enforce; a timed-out call is reported here as
//! a failure event.

use vstd::prelude::*;
use vstd::pervasive::arbitrary;
use crate::agents::Agent;
use crate::errors::OrchestratorError;

verus! {

/// Maps one specialty to the provider that serves it.
pub struct ProviderRoute {
    pub specialty: String,
    pub provider: String,
}

/// Read-only routing configuration, set once at construction and never
/// mutated; concurrent generations read it freely.
pub struct RouterConfig {
    /// Specialty-based routing table.
    pub routes: Vec<ProviderRoute>,
    /// The designated provider for unmapped specialties.
    pub default_provider: String,
    /// Calls allowed per provider: the first try plus the retries.
    pub max_attempts: u64,
    /// Tried in order once the routed provider's attempts are exhausted.
    pub fallback_providers: Vec<String>,
}

impl RouterConfig {
    /// At least one call is made to each provider in the chain.
    pub open spec fn wf(&self) -> bool {
        self.max_attempts >= 1
    }
}

/// The provider the deterministic routing rule selects for a specialty:
/// the first route that names it, else the default provider.
pub open spec fn routed_provider(
    routes: Seq<ProviderRoute>,
    default_provider: Seq<char>,
    specialty: Seq<char>,
) -> Seq<char>
    decreases routes.len(),
{
    if routes.len() == 0 {
        default_provider
    } else if routes[0].specialty@ == specialty {
        routes[0].provider@
    } else {
        routed_provider(routes.drop_first(), default_provider, specialty)
    }
}

/// How many providers the chain for an agent holds: the routed one plus the
/// fallbacks.
pub open spec fn chain_len(cfg: RouterConfig) -> int {
    1 + cfg.fallback_providers@.len() as int
}

/// The name of the chain's provider at position `i`.
pub open spec fn provider_at(cfg: RouterConfig, agent: Agent, i: int) -> Seq<char> {
    if i == 0 {
        routed_provider(cfg.routes@, cfg.default_provider@, agent.specialty@)
    } else {
        cfg.fallback_providers@[i - 1]@
    }
}

/// Selects the provider for an agent: the first route matching the agent's
/// specialty, else the default provider.
pub fn route_provider(cfg: &RouterConfig, agent: &Agent) -> (r: String)
    ensures
        r@ == routed_provider(cfg.routes@, cfg.default_provider@, agent.specialty@),
{
    let n = cfg.routes.len();
    let mut i: usize = 0;
    proof {
        assert(cfg.routes@.skip(0) =~= cfg.routes@);
    }
    while i < n
        invariant
            i <= n,
            n == cfg.routes@.len(),
            routed_provider(cfg.routes@, cfg.default_provider@, agent.specialty@)
                == routed_provider(
                cfg.routes@.skip(i as int),
                cfg.default_provider@,
                agent.specialty@,
            ),
        decreases n - i,
    {
        if cfg.routes[i].specialty == agent.specialty {
            proof {
                assert(cfg.routes@.skip(i as int)[0] == cfg.routes@[i as int]);
            }
            return cfg.routes[i].provider.clone();
        }
        proof {
            assert(cfg.routes@.skip(i as int)[0] == cfg.routes@[i as int]);
            assert(cfg.routes@.skip(i as int).drop_first() =~= cfg.routes@.skip(i as int + 1));
        }
        i = i + 1;
    }
    proof {
        assert(cfg.routes@.skip(n as int).len() == 0);
    }
    cfg.default_provider.clone()
}

/// Where a generation stands: which chain position, which attempt on it.
#[derive(Clone, Copy)]
pub struct GenProgress {
    pub provider_index: usize,
    pub attempt: u64,
}

/// What the runtime reports of one settled call.
pub enum GenEvent {
    Success { text: String },
    Failure { cause: String },
}

impl Clone for GenEvent {
    fn clone(&self) -> (r: Self)
        ensures
            r == *self,
    {
        match self {
            GenEvent::Success { text } => GenEvent::Success { text: text.clone() },
            GenEvent::Failure { cause } => GenEvent::Failure { cause: cause.clone() },
        }
    }
}

/// What the policy asks of the runtime next.
pub enum GenStep {
    /// Issue one call to this provider, under the per-call timeout, then
    /// report its outcome and step again.
    Call { provider: String, progress: GenProgress },
    /// The generation succeeded with this text.
    Done { text: String },
    /// Every retry and every fallback is exhausted; the cause is the last
    /// underlying failure.
    Failed { last_cause: String },
}

/// A progress value that still points into the chain.
pub open spec fn progress_wf(cfg: RouterConfig, st: GenProgress) -> bool {
    st.provider_index < chain_len(cfg) && st.attempt < cfg.max_attempts
}

/// How many calls the policy may still issue from `st`, counting the one
/// `st` itself asks for.
pub open spec fn attempts_remaining(cfg: RouterConfig, st: GenProgress) -> int {
    (cfg.max_attempts - st.attempt) + (chain_len(cfg) - 1 - st.provider_index)
        * cfg.max_attempts as int
}

/// The first action of a generation: call the routed provider.
pub fn generation_start(cfg: &RouterConfig, agent: &Agent) -> (r: GenStep)
    requires
        cfg.wf(),
    ensures
        r matches GenStep::Call { provider, progress } && provider@ == provider_at(*cfg, *agent, 0)
            && progress == (GenProgress { provider_index: 0, attempt: 0 }),
{
    GenStep::Call {
        provider: route_provider(cfg, agent),
        progress: GenProgress { provider_index: 0, attempt: 0 },
    }
}

/// One decision of the retry and fallback policy. A success ends the
/// generation with its text. A failure retries the same provider while
/// attempts remain, then moves down the fallback chain, and only once the
/// whole chain is exhausted reports failure, carrying the last cause.
pub fn generation_step(cfg: &RouterConfig, agent: &Agent, progress: GenProgress, event: GenEvent)
    -> (r: GenStep)
    requires
        cfg.wf(),
        progress_wf(*cfg, progress),
    ensures
        (event matches GenEvent::Success { text } ==> r == (GenStep::Done { text })),
        (event matches GenEvent::Failure { cause } ==> {
            if progress.attempt + 1 < cfg.max_attempts {
                r matches GenStep::Call { provider, progress: p2 } && provider@ == provider_at(
                    *cfg,
                    *agent,
                    progress.provider_index as int,
                ) && p2 == (GenProgress {
                    provider_index: progress.provider_index,
                    attempt: (progress.attempt + 1) as u64,
                })
            } else if progress.provider_index + 1 < chain_len(*cfg) {
                r matches GenStep::Call { provider, progress: p2 } && provider@ == provider_at(
                    *cfg,
                    *agent,
                    progress.provider_index + 1,
                ) && p2 == (GenProgress {
                    provider_index: (progress.provider_index + 1) as usize,
                    attempt: 0,
                })
            } else {
                r == (GenStep::Failed { last_cause: cause })
            }
        }),
{
    match event {
        GenEvent::Success { text } => GenStep::Done { text },
        GenEvent::Failure { cause } => {
            if progress.attempt + 1 < cfg.max_attempts {
                let provider = if progress.provider_index == 0 {
                    route_provider(cfg, agent)
                } else {
                    cfg.fallback_providers[progress.provider_index - 1].clone()
                };
                GenStep::Call {
                    provider,
                    progress: GenProgress {
                        provider_index: progress.provider_index,
                        attempt: progress.attempt + 1,
                    },
                }
            } else if progress.provider_index < cfg.fallback_providers.len() {
                GenStep::Call {
                    provider: cfg.fallback_providers[progress.provider_index].clone(),
                    progress: GenProgress {
                        provider_index: progress.provider_index + 1,
                        attempt: 0,
                    },
                }
            } else {
                GenStep::Failed { last_cause: cause }
            }
        },
    }
}

/// The result the policy reaches when successive calls settle as `events`
/// reports, starting from `st`: the first success wins; failures walk the
/// retries and then the fallback chain.
pub open spec fn spec_resolve(cfg: RouterConfig, st: GenProgress, events: Seq<GenEvent>) -> Result<
    String,
    OrchestratorError,
>
    decreases events.len(),
{
    if events.len() == 0 {
        arbitrary()
    } else {
        match events[0] {
            GenEvent::Success { text } => Ok(text),
            GenEvent::Failure { cause } => {
                if st.attempt + 1 < cfg.max_attempts {
                    spec_resolve(
                        cfg,
                        GenProgress {
                            provider_index: st.provider_index,
                            attempt: (st.attempt + 1) as u64,
                        },
                        events.drop_first(),
                    )
                } else if st.provider_index + 1 < chain_len(cfg) {
                    spec_resolve(
                        cfg,
                        GenProgress {
                            provider_index: (st.provider_index + 1) as usize,
                            attempt: 0,
                        },
                        events.drop_first(),
                    )
                } else {
                    Err(OrchestratorError::Generation { last_cause: cause })
                }
            },
        }
    }
}

/// Runs the whole policy against an already-settled sequence of call
/// outcomes, one event per call the policy issues. `events` must be long
/// enough for the worst case — the policy consumes at most one event per
/// remaining attempt and stops early on success.
pub fn resolve_generation(cfg: &RouterConfig, agent: &Agent, events: &Vec<GenEvent>) -> (r: Result<
    String,
    OrchestratorError,
>)
    requires
        cfg.wf(),
        events@.len() >= attempts_remaining(
            *cfg,
            GenProgress { provider_index: 0, attempt: 0 },
        ),
    ensures
        r == spec_resolve(*cfg, GenProgress { provider_index: 0, attempt: 0 }, events@),
{
    let mut progress = GenProgress { provider_index: 0, attempt: 0 };
    let mut k: usize = 0;
    proof {
        assert(events@.skip(0) =~= events@);
        assert(attempts_remaining(*cfg, progress) >= 1) by (nonlinear_arith)
            requires
                cfg.max_attempts >= 1,
                chain_len(*cfg) >= 1,
                progress.provider_index == 0,
                progress.attempt == 0,
        ;
    }
    loop
        invariant
            cfg.wf(),
            progress_wf(*cfg, progress),
            k <= events@.len(),
            events@.skip(k as int).len() >= attempts_remaining(*cfg, progress),
            attempts_remaining(*cfg, progress) >= 1,
            spec_resolve(*cfg, GenProgress { provider_index: 0, attempt: 0 }, events@)
                == spec_resolve(*cfg, progress, events@.skip(k as int)),
        decreases events@.len() - k,
    {
        let event = events[k].clone();
        let step = generation_step(cfg, agent, progress, event);
        proof {
            assert(events@.skip(k as int)[0] == events@[k as int]);
            assert(events@.skip(k as int).drop_first() =~= events@.skip(k as int + 1));
        }
        match step {
            GenStep::Done { text } => {
                return Ok(text);
            },
            GenStep::Failed { last_cause } => {
                return Err(OrchestratorError::Generation { last_cause });
            },
            GenStep::Call { provider: _, progress: p2 } => {
                proof {
                    assert(events.len() == events@.len());
                    assert(cfg.fallback_providers.len() == cfg.fallback_providers@.len());
                    if progress.attempt + 1 < cfg.max_attempts {
                        assert(p2 == (GenProgress {
                            provider_index: progress.provider_index,
                            attempt: (progress.attempt + 1) as u64,
                        }));
                    } else {
                        assert(progress.attempt + 1 == cfg.max_attempts);
                        assert(progress.provider_index + 1 < chain_len(*cfg));
                        assert(p2 == (GenProgress {
                            provider_index: (progress.provider_index + 1) as usize,
                            attempt: 0,
                        }));
                    }
                    assert(progress_wf(*cfg, p2));
                    assert(attempts_remaining(*cfg, p2) == attempts_remaining(*cfg, progress) - 1)
                        by (nonlinear_arith)
                        requires
                            progress_wf(*cfg, progress),
                            progress_wf(*cfg, p2),
                            cfg.wf(),
                            (p2.provider_index == progress.provider_index && p2.attempt
                                == progress.attempt + 1) || (p2.provider_index
                                == progress.provider_index + 1 && p2.attempt == 0
                                && progress.attempt + 1 == cfg.max_attempts),
                    ;
                }
                progress = p2;
                k = k + 1;
            },
        }
    }
}

/// Law: as long as providers keep failing, the policy keeps trying — the
/// first success among the settled outcomes becomes the returned text,
/// provided it arrives before the chain is exhausted; no failure is
/// reported to the caller.
pub proof fn lemma_resolve_first_success(
    cfg: RouterConfig,
    st: GenProgress,
    events: Seq<GenEvent>,
    j: int,
)
    requires
        cfg.wf(),
        progress_wf(cfg, st),
        0 <= j < events.len(),
        j < attempts_remaining(cfg, st),
        forall|k: int| 0 <= k < j ==> events[k] is Failure,
        events[j] is Success,
    ensures
        spec_resolve(cfg, st, events) == Ok::<String, OrchestratorError>(events[j]->Success_text),
    decreases j,
{
    if j == 0 {
    } else {
        assert(cfg.fallback_providers.len() == cfg.fallback_providers@.len());
        assert(st.provider_index + 1 < chain_len(cfg) || st.attempt + 1 < cfg.max_attempts) by (
        nonlinear_arith)
            requires
                progress_wf(cfg, st),
                cfg.wf(),
                attempts_remaining(cfg, st) > 1,
        ;
        let st2 = if st.attempt + 1 < cfg.max_attempts {
            GenProgress { provider_index: st.provider_index, attempt: (st.attempt + 1) as u64 }
        } else {
            GenProgress { provider_index: (st.provider_index + 1) as usize, attempt: 0 }
        };
        assert(attempts_remaining(cfg, st2) == attempts_remaining(cfg, st) - 1) by (nonlinear_arith)
            requires
                progress_wf(cfg, st),
                cfg.wf(),
                (st2.provider_index == st.provider_index && st2.attempt == st.attempt + 1
                    && st.attempt + 1 < cfg.max_attempts) || (st2.provider_index
                    == st.provider_index + 1 && st2.attempt == 0 && st.attempt + 1
                    == cfg.max_attempts),
        ;
        assert(progress_wf(cfg, st2));
        assert(forall|k: int|
            0 <= k < j - 1 ==> events.drop_first()[k] == events[k + 1] && events[k + 1] is Failure);
        assert(events.drop_first()[j - 1] == events[j]);
        lemma_resolve_first_success(cfg, st2, events.drop_first(), j - 1);
    }
}

/// Law: the policy reports failure only once every provider in the chain
/// has been given its full number of attempts, and then it carries the last
/// underlying cause.
pub proof fn lemma_resolve_exhausted(cfg: RouterConfig, st: GenProgress, events: Seq<GenEvent>)
    requires
        cfg.wf(),
        progress_wf(cfg, st),
        events.len() >= attempts_remaining(cfg, st),
        forall|k: int| 0 <= k < attempts_remaining(cfg, st) ==> events[k] is Failure,
    ensures
        spec_resolve(cfg, st, events) == Err::<String, OrchestratorError>(
            OrchestratorError::Generation {
                last_cause: events[attempts_remaining(cfg, st) - 1]->Failure_cause,
            },
        ),
    decreases events.len(),
{
    assert(attempts_remaining(cfg, st) >= 1) by (nonlinear_arith)
        requires
            progress_wf(cfg, st),
            cfg.wf(),
    ;
    assert(events[0] is Failure);
    if st.attempt + 1 >= cfg.max_attempts && st.provider_index + 1 >= chain_len(cfg) {
        assert(attempts_remaining(cfg, st) == 1) by (nonlinear_arith)
            requires
                progress_wf(cfg, st),
                cfg.wf(),
                st.attempt + 1 >= cfg.max_attempts,
                st.provider_index + 1 >= chain_len(cfg),
        ;
    } else {
        assert(cfg.fallback_providers.len() == cfg.fallback_providers@.len());
        let st2 = if st.attempt + 1 < cfg.max_attempts {
            GenProgress { provider_index: st.provider_index, attempt: (st.attempt + 1) as u64 }
        } else {
            GenProgress { provider_index: (st.provider_index + 1) as usize, attempt: 0 }
        };
        assert(attempts_remaining(cfg, st2) == attempts_remaining(cfg, st) - 1) by (nonlinear_arith)
            requires
                progress_wf(cfg, st),
                cfg.wf(),
                (st2.provider_index == st.provider_index && st2.attempt == st.attempt + 1
                    && st.attempt + 1 < cfg.max_attempts) || (st2.provider_index
                    == st.provider_index + 1 && st2.attempt == 0 && st.attempt + 1
                    == cfg.max_attempts && st.provider_index + 1 < chain_len(cfg)),
        ;
        assert(progress_wf(cfg, st2));
        assert(forall|k: int|
            0 <= k < attempts_remaining(cfg, st2) ==> events.drop_first()[k] == events[k + 1]
                && events[k + 1] is Failure);
        lemma_resolve_exhausted(cfg, st2, events.drop_first());
        assert(events.drop_first()[attempts_remaining(cfg, st2) - 1] == events[attempts_remaining(
            cfg,
            st,
        ) - 1]);
    }
}

} // verus!

//! What the service does with its state: events go to their agents, and requests are answered.
use vstd::prelude::*;

use crate::agent;
use crate::agent::{resolve_agent_status, AgentRole, WorkerCallback};
use crate::agent_events;
use crate::agent_events::{apply_event, EventOutcome, IncomingEvent};
use crate::agent_status;
use crate::agent_turns;
use crate::agent_turns::{
    finish_agent_turn, release_governor_inflight, spawn_agent_record, start_agent_turn,
    RetryPlan, TurnOutcome, TurnStep,
};
use crate::auth;
use crate::auth::to_lowercase;
use crate::constants;
use crate::error::ForemanError;
use crate::governor;
use crate::job;
use crate::job::find_agent;
use crate::job_status;
use crate::jobs;
use crate::json;
use crate::json::Json;
use crate::launch;
use crate::launch::StartOrder;
use crate::models;
use crate::models::{
    clone_opt_texts, clone_opt_vars, AgentEventDto, AgentProgressEnvelope, AgentResultResponse,
    AgentState, AgentWaitResponse, InterruptInput, JobEventEnvelope, JobResult, JobState,
    PlanProjectJobsRequest, PlanProjectJobsResponse, ProjectCallbackStatusResponse, ProjectState,
    RetryAgentRequest, RetryAgentResponse, SendAgentInput, SpawnAgentRequest, SpawnAgentResponse, ThrottledWorkerStatus,
    WorkerLogEntry,
};
use crate::monitoring;
use crate::projects;
use crate::protocol;
use crate::protocol::parse_thread_id;
use crate::registry;
use crate::registry::{find_project, Foreman};
use crate::resolve;
use crate::resolve::{resolve_callback, CallbackResolutionParams, EnvVars};
use crate::scope;
use crate::text;
use crate::text::trim;
use crate::text_search::strip_prefix;

verus! {

/// The name of a method without the prefix of the app server's own events.
pub open spec fn normalized_method(method: Seq<char>) -> Seq<char> {
    if text::begins(method, constants::CODEX_EVENT_METHOD_PREFIX@) {
        method.skip(constants::CODEX_EVENT_METHOD_PREFIX@.len() as int)
    } else {
        method
    }
}

/// Where a notification goes.
#[derive(Debug)]
pub enum Route {
    /// To an agent.
    Agent { agent_id: u128, method: String, params: Json },
    /// Nowhere yet: it is kept until its thread has an agent.
    Kept,
    /// Nowhere: it names no thread.
    Dropped,
}

/// Events with one more, of which no more are kept than the buffer takes.
pub open spec fn queued(
    pending: Map<Seq<char>, Seq<models::EventView>>,
    thread: Seq<char>,
    e: models::EventView,
) -> Map<Seq<char>, Seq<models::EventView>> {
    let before = if pending.dom().contains(thread) {
        pending[thread]
    } else {
        Seq::empty()
    };
    pending.insert(thread, agent_events::buffered(before, e))
}

/// The state after a notification.
pub open spec fn after_notification(
    v: registry::ForemanView,
    method: Seq<char>,
    params: json::JsonView,
    ts: u64,
) -> registry::ForemanView {
    match protocol::thread_of(params) {
        Some(thread) => if v.threads.dom().contains(thread) {
            v
        } else {
            registry::ForemanView {
                pending: queued(
                    v.pending,
                    thread,
                    models::EventView { ts, method: normalized_method(method), params },
                ),
                ..v
            }
        },
        None => v,
    }
}

/// The state with an agent in place of the one at a position.
pub open spec fn set_agent(v: registry::ForemanView, i: int, a: agent::AgentView) -> registry::ForemanView {
    registry::ForemanView { agents: v.agents.update(i, a), ..v }
}

/// A worktree that was left behind.
#[derive(Debug, Clone)]
pub struct ResidualWorktree {
    pub agent_id: u128,
    pub project_path: String,
    pub worktree_path: String,
    pub branch_name: Option<String>,
}

/// A worktree that was left behind.
pub struct ResidualView {
    pub agent_id: u128,
    pub project_path: Seq<char>,
    pub worktree_path: Seq<char>,
    pub branch_name: Option<Seq<char>>,
}

/// The worktree that an agent of a project leaves behind.
pub open spec fn residual_of(a: agent::AgentView, projects: Seq<projects::ProjectView>) -> Option<
    ResidualView,
> {
    match a.worktree_path {
        Some(worktree_path) => match a.project_id {
            Some(id) => match registry::project_of(projects, id) {
                Some(p) => Some(
                    ResidualView {
                        agent_id: a.id,
                        project_path: p.path,
                        worktree_path,
                        branch_name: a.branch_name,
                    },
                ),
                None => None,
            },
            None => None,
        },
        None => None,
    }
}

/// The worktrees that agents leave behind, in order.
pub open spec fn residuals(
    agents: Seq<agent::AgentView>,
    projects: Seq<projects::ProjectView>,
) -> Seq<ResidualView>
    decreases agents.len(),
{
    if agents.len() == 0 {
        Seq::empty()
    } else {
        let before = residuals(agents.drop_last(), projects);
        match residual_of(agents.last(), projects) {
            Some(r) => before.push(r),
            None => before,
        }
    }
}

/// What worktrees that were left behind say.
pub open spec fn residual_views(v: Seq<ResidualWorktree>) -> Seq<ResidualView> {
    v.map_values(
        |r: ResidualWorktree|
            ResidualView {
                agent_id: r.agent_id,
                project_path: r.project_path@,
                worktree_path: r.worktree_path@,
                branch_name: text::opt_text(r.branch_name),
            },
    )
}

/// The identifiers of the workers, in order.
pub open spec fn worker_ids(agents: Seq<agent::AgentView>) -> Seq<u128>
    decreases agents.len(),
{
    if agents.len() == 0 {
        Seq::empty()
    } else if agents.last().role == AgentRole::Worker {
        worker_ids(agents.drop_last()).push(agents.last().id)
    } else {
        worker_ids(agents.drop_last())
    }
}

/// The agents, each with its status set right.
pub open spec fn all_reconciled(agents: Seq<agent::AgentView>, ts: u64) -> Seq<agent::AgentView> {
    agents.map_values(|a: agent::AgentView| monitoring::reconciled(a, ts))
}

/// The state after agents are closed, one after the other.
pub open spec fn after_closing(v: registry::ForemanView, ids: Seq<u128>, ts: u64) -> registry::ForemanView
    decreases ids.len(),
{
    if ids.len() == 0 {
        v
    } else {
        let before = after_closing(v, ids.drop_last(), ts);
        match job::position_of(job::agent_ids(before.agents), ids.last()) {
            Some(i) => registry::after_close(before, i, ts),
            None => before,
        }
    }
}

/// What an agent that belongs to no project is resolved from.
pub open spec fn spawn_params(request: SpawnAgentRequest) -> resolve::ParamsView {
    resolve::ParamsView {
        profile: text::opt_text(request.callback_profile),
        prompt_prefix: text::opt_text(request.callback_prompt_prefix),
        args: text::opt_texts(request.callback_args),
        vars: resolve::opt_vars(request.callback_vars),
        events: text::opt_texts(request.callback_events),
        use_global_default: true,
    }
}

impl Foreman {
    /// The name of a method without the prefix of the app server's own events.
    pub fn normalize_event_method(method: &str) -> (r: String)
        ensures
            r@ == normalized_method(method@),
    {
        match strip_prefix(method, constants::CODEX_EVENT_METHOD_PREFIX) {
            Some(rest) => rest,
            None => method.to_owned(),
        }
    }

    /// Says where a notification goes. One whose thread has no agent yet is kept.
    pub fn route_notification(&mut self, method: &str, params: Json, ts: u64) -> (r: Route)
        ensures
            final(self)@ == after_notification(old(self)@, method@, params@, ts),
            final(self).config == old(self).config,
            registry::well_formed(old(self)@) ==> registry::well_formed(final(self)@),
            match protocol::thread_of(params@) {
                Some(thread) => if old(self)@.threads.dom().contains(thread) {
                    r matches Route::Agent { agent_id, method: m, params: p } && agent_id == old(
                        self,
                    )@.threads[thread] && m@ == normalized_method(method@) && p@ == params@
                } else {
                    r is Kept
                },
                None => r is Dropped,
            },
    {
        let normalized = Foreman::normalize_event_method(method);
        match parse_thread_id(&params) {
            Some(thread) => {
                if let Some(agent_id) = self.thread_map.get(thread.as_str()) {
                    return Route::Agent { agent_id: *agent_id, method: normalized, params };
                }
                self.buffer_pending_event(thread, normalized, params, ts);
                Route::Kept
            },
            None => Route::Dropped,
        }
    }

    /// Keeps an event of a thread that has no agent yet. Of a thread no more events are kept
    /// than of an agent.
    pub fn buffer_pending_event(&mut self, thread_id: String, method: String, params: Json, ts: u64)
        ensures
            final(self)@ == (registry::ForemanView {
                pending: queued(
                    old(self)@.pending,
                    thread_id@,
                    models::EventView { ts, method: method@, params: params@ },
                ),
                ..old(self)@
            }),
            final(self).config == old(self).config,
            registry::well_formed(old(self)@) ==> registry::well_formed(final(self)@),
    {
        let ghost before = self@;
        let ghost before_map = self.pending_events@;
        let mut queue: Vec<AgentEventDto> = match self.pending_events.get(thread_id.as_str()) {
            Some(queue) => models::clone_events(queue),
            None => Vec::new(),
        };
        proof {
            if !before_map.dom().contains(thread_id@) {
                assert(models::event_views(queue@) == Seq::<models::EventView>::empty());
            }
        }
        agent_events::buffer_event(&mut queue, AgentEventDto { ts, method, params });
        let ghost views = models::event_views(queue@);
        self.pending_events.insert(thread_id, queue);
        proof {
            assert(registry::pending_views(self.pending_events@) == registry::pending_views(
                before_map,
            ).insert(thread_id@, views));
            assert(self@.agents == before.agents);
        }
    }

    /// Takes the events that were kept for a thread.
    pub fn drain_pending_events(&mut self, thread_id: &str) -> (r: Vec<AgentEventDto>)
        ensures
            models::event_views(r@) == (if old(self)@.pending.dom().contains(thread_id@) {
                old(self)@.pending[thread_id@]
            } else {
                Seq::empty()
            }),
            final(self)@ == (registry::ForemanView {
                pending: old(self)@.pending.remove(thread_id@),
                ..old(self)@
            }),
            final(self).config == old(self).config,
            registry::well_formed(old(self)@) ==> registry::well_formed(final(self)@),
    {
        let ghost before = self@;
        let ghost before_map = self.pending_events@;
        let events = match self.pending_events.get(thread_id) {
            Some(queue) => models::clone_events(queue),
            None => Vec::new(),
        };
        self.pending_events.remove(thread_id);
        proof {
            assert(registry::pending_views(self.pending_events@) == registry::pending_views(
                before_map,
            ).remove(thread_id@));
            if !before_map.dom().contains(thread_id@) {
                assert(models::event_views(events@) == Seq::<models::EventView>::empty());
            }
            assert(self@.agents == before.agents);
        }
        events
    }

    /// Takes an event to an agent. Says what follows from it.
    pub fn dispatch_event(&mut self, agent_id: u128, event: &IncomingEvent) -> (r: Option<
        EventOutcome,
    >)
        ensures
            match job::position_of(job::agent_ids(old(self)@.agents), agent_id) {
                Some(i) => {
                    let a = agent_events::after_event(old(self)@.agents[i], event@);
                    &&& final(self)@ == set_agent(old(self)@, i, a)
                    &&& r matches Some(o) && agent_events::is_outcome(o, a, event@)
                    &&& agent::buffer_ok(a)
                },
                None => r is None && final(self)@ == old(self)@,
            },
            final(self).config == old(self).config,
            registry::well_formed(old(self)@) ==> registry::well_formed(final(self)@),
    {
        let ghost before = self@;
        proof {
            job::lemma_position_found(job::agent_ids(before.agents), agent_id);
        }
        match find_agent(&self.agents, agent_id) {
            Some(i) => {
                let outcome = apply_event(&mut self.agents[i], event);
                proof {
                    assert(self@.agents == before.agents.update(
                        i as int,
                        agent_events::after_event(before.agents[i as int], event@),
                    ));
                    registry::lemma_same_agents_stay_well_formed(before, self@);
                }
                Some(outcome)
            },
            None => None,
        }
    }

    /// Takes note that the request of an agent whose work has ended is no longer under way.
    pub fn release_inflight(&mut self, agent_id: u128)
        ensures
            match job::position_of(job::agent_ids(old(self)@.agents), agent_id) {
                Some(i) => {
                    let a = old(self)@.agents[i];
                    final(self)@ == (registry::ForemanView {
                        agents: old(self)@.agents.update(
                            i,
                            agent::AgentView { governor_inflight: false, ..a },
                        ),
                        governors: match a.governor_key {
                            Some(key) => if a.governor_inflight {
                                agent_turns::after_release(old(self)@.governors, key)
                            } else {
                                old(self)@.governors
                            },
                            None => old(self)@.governors,
                        },
                        ..old(self)@
                    })
                },
                None => final(self)@ == old(self)@,
            },
            final(self).config == old(self).config,
            registry::well_formed(old(self)@) ==> registry::well_formed(final(self)@),
    {
        let ghost before = self@;
        proof {
            job::lemma_position_found(job::agent_ids(before.agents), agent_id);
        }
        if let Some(i) = find_agent(&self.agents, agent_id) {
            release_governor_inflight(&mut self.agents[i], &mut self.governors);
            proof {
                assert(self@.agents == before.agents.update(
                    i as int,
                    agent::AgentView { governor_inflight: false, ..before.agents[i as int] },
                ));
                registry::lemma_same_agents_stay_well_formed(before, self@);
            }
        }
    }

    /// Starts to start a turn of an agent.
    pub fn begin_turn(&mut self, agent_id: u128, now_ms: u64, ts: u64) -> (r: Result<
        TurnStep,
        ForemanError,
    >)
        ensures
            match job::position_of(job::agent_ids(old(self)@.agents), agent_id) {
                Some(i) => {
                    let a = old(self)@.agents[i];
                    &&& final(self)@.agents == old(self)@.agents.update(
                        i,
                        agent_turns::before_turn(a, old(self)@.governors, now_ms, ts),
                    )
                    &&& final(self)@ == (registry::ForemanView {
                        agents: final(self)@.agents,
                        governors: final(self)@.governors,
                        ..old(self)@
                    })
                    &&& final(self)@.governors == (match agent_turns::governed(a) {
                        Some(key) => if agent_turns::pause_of(a) is Some {
                            old(self)@.governors
                        } else {
                            old(self)@.governors.insert(
                                key,
                                agent_turns::after_asking(
                                    agent_turns::state_of(old(self)@.governors, key),
                                    now_ms,
                                ),
                            )
                        },
                        None => old(self)@.governors,
                    })
                    &&& match r {
                        Ok(TurnStep::Paused) => agent_turns::pause_of(a) is Some,
                        Ok(TurnStep::Wait { retry_at_ms, progress }) => {
                            &&& agent_turns::pause_of(a) is None
                            &&& agent_turns::wait_of(a, old(self)@.governors, now_ms) == Some(
                                retry_at_ms,
                            )
                            &&& progress@ == agent_events::state_progress(
                                agent_turns::after_throttle(
                                    a,
                                    retry_at_ms,
                                    "provider rate limit"@,
                                    ts,
                                ),
                                "throttle/wait"@,
                                ts,
                                false,
                            )
                        },
                        Ok(TurnStep::Send { thread_id }) => agent_turns::pause_of(a) is None
                            && agent_turns::wait_of(a, old(self)@.governors, now_ms) is None
                            && thread_id@ == a.thread_id,
                        Err(_) => false,
                    }
                },
                None => {
                    &&& r matches Err(e) && e@ == seq!["agent not found"@]
                    &&& final(self)@ == old(self)@
                },
            },
            final(self).config == old(self).config,
            registry::well_formed(old(self)@) ==> registry::well_formed(final(self)@),
    {
        let ghost before = self@;
        proof {
            job::lemma_position_found(job::agent_ids(before.agents), agent_id);
        }
        let i: usize = match self.agent_index(agent_id) {
            Ok(i) => i,
            Err(e) => {
                return Err(e);
            },
        };
        let step = start_agent_turn(&mut self.agents[i], &mut self.governors, now_ms, ts);
        proof {
            assert(self@.agents == before.agents.update(
                i as int,
                agent_turns::before_turn(before.agents[i as int], before.governors, now_ms, ts),
            ));
            registry::lemma_same_agents_stay_well_formed(before, self@);
        }
        Ok(step)
    }

    /// Takes note of what came of sending a prompt to an agent that is still there.
    pub fn finish_turn(
        &mut self,
        agent_id: u128,
        outcome: Result<String, String>,
        now_ms: u64,
        ts: u64,
    ) -> (r: Option<TurnOutcome>)
        ensures
            match job::position_of(job::agent_ids(old(self)@.agents), agent_id) {
                Some(i) => {
                    let a = old(self)@.agents[i];
                    &&& final(self)@ == (registry::ForemanView {
                        agents: final(self)@.agents,
                        governors: final(self)@.governors,
                        ..old(self)@
                    })
                    &&& match outcome {
                        Ok(turn) => {
                            &&& final(self)@.agents == old(self)@.agents.update(
                                i,
                                agent_turns::after_start(a, turn@, ts),
                            )
                            &&& final(self)@.governors == (match agent_turns::governed(a) {
                                Some(key) => if old(self)@.governors.dom().contains(key) {
                                    old(self)@.governors.insert(
                                        key,
                                        governor::after_success(old(self)@.governors[key], now_ms),
                                    )
                                } else {
                                    old(self)@.governors
                                },
                                None => old(self)@.governors,
                            })
                            &&& r matches Some(TurnOutcome::Started { turn_id }) && turn_id@ == turn@
                        },
                        Err(error) => match agent_turns::until_after(
                            a,
                            old(self)@.governors,
                            error@,
                            now_ms,
                        ) {
                            Some(until) => {
                                &&& final(self)@.agents == old(self)@.agents.update(
                                    i,
                                    agent_turns::after_rate_limit(
                                        a,
                                        until,
                                        error@,
                                        Some(error@),
                                        ts,
                                    ),
                                )
                                &&& final(self)@.governors == old(self)@.governors.insert(
                                    a.governor_key->0,
                                    governor::after_rate_limit(
                                        agent_turns::state_of(
                                            old(self)@.governors,
                                            a.governor_key->0,
                                        ),
                                        now_ms,
                                    ),
                                )
                                &&& r matches Some(TurnOutcome::Wait { retry_at_ms, progress })
                                    && retry_at_ms == until && progress@
                                    == agent_events::state_progress(
                                    agent_turns::after_throttle(a, until, error@, ts),
                                    "throttle/wait"@,
                                    ts,
                                    false,
                                )
                            },
                            None => {
                                &&& final(self)@.agents == old(self)@.agents
                                &&& final(self)@.governors == (match agent_turns::governed(a) {
                                    Some(key) => agent_turns::after_release(
                                        old(self)@.governors,
                                        key,
                                    ),
                                    None => old(self)@.governors,
                                })
                                &&& r matches Some(TurnOutcome::Failed)
                            },
                        },
                    }
                },
                None => r is None && final(self)@ == old(self)@,
            },
            final(self).config == old(self).config,
            registry::well_formed(old(self)@) ==> registry::well_formed(final(self)@),
    {
        let ghost before = self@;
        proof {
            job::lemma_position_found(job::agent_ids(before.agents), agent_id);
        }
        match find_agent(&self.agents, agent_id) {
            Some(i) => {
                let r = finish_agent_turn(
                    &mut self.agents[i],
                    &mut self.governors,
                    outcome,
                    now_ms,
                    ts,
                );
                proof {
                    assert(self@.agents == before.agents.update(i as int, self.agents@[i as int]@));
                    assert(before.agents.update(i as int, before.agents[i as int]) == before.agents);
                    registry::lemma_same_agents_stay_well_formed(before, self@);
                }
                Some(r)
            },
            None => None,
        }
    }

    /// The callback of an agent that belongs to no project.
    pub fn spawn_agent(&self, request: &SpawnAgentRequest, env: &EnvVars) -> (r: Result<
        WorkerCallback,
        ForemanError,
    >)
        ensures
            match resolve::resolved(self.config, None, spawn_params(*request), env@) {
                Ok(c) => r matches Ok(callback) && callback@ == c,
                Err(chain) => r matches Err(e) && e@ == seq!["failed to configure worker callback"@]
                    + chain,
            },
    {
        let params = CallbackResolutionParams {
            callback_profile: request.callback_profile.clone(),
            callback_prompt_prefix: request.callback_prompt_prefix.clone(),
            callback_args: clone_opt_texts(&request.callback_args),
            callback_vars: clone_opt_vars(&request.callback_vars),
            callback_events: clone_opt_texts(&request.callback_events),
            use_global_default: true,
        };
        assert(params@ == spawn_params(*request));
        match resolve_callback(&self.config, params, env) {
            Ok(callback) => Ok(callback),
            Err(e) => Err(e.context("failed to configure worker callback".to_owned())),
        }
    }

    /// Adds an agent on a thread that was started for it.
    pub fn add_agent(
        &mut self,
        id: u128,
        thread_id: String,
        request: &SpawnAgentRequest,
        role: AgentRole,
        project_id: Option<u128>,
        foreman_id: Option<u128>,
        job_id: Option<u128>,
        callback: WorkerCallback,
        now_ms: u64,
        ts: u64,
    )
        ensures
            ({
                let a = agent_turns::fresh_agent(
                    id,
                    thread_id@,
                    *request,
                    role,
                    project_id,
                    foreman_id,
                    job_id,
                    callback@,
                    now_ms,
                    ts,
                );
                final(self)@ == (registry::ForemanView {
                    agents: registry::with_agent(old(self)@.agents, a),
                    threads: old(self)@.threads.insert(thread_id@, id),
                    ..old(self)@
                })
            }),
            final(self).config == old(self).config,
            registry::well_formed(old(self)@) ==> registry::well_formed(final(self)@),
    {
        let agent = spawn_agent_record(
            id,
            thread_id,
            request,
            role,
            project_id,
            foreman_id,
            job_id,
            callback,
            now_ms,
            ts,
        );
        self.insert_agent(agent);
    }

    /// Sets the status of an agent right once its first turn is under way, and tells of it. Of an
    /// agent that is gone by then, the status is unknown.
    pub fn settle_spawn(
        &mut self,
        agent_id: u128,
        thread_id: String,
        turn_id: Option<String>,
        role: AgentRole,
        project_id: Option<u128>,
        foreman_id: Option<u128>,
        ts: u64,
    ) -> (r: SpawnAgentResponse)
        ensures
            match job::position_of(job::agent_ids(old(self)@.agents), agent_id) {
                Some(i) => {
                    let a = old(self)@.agents[i];
                    let b = agent::AgentView {
                        status: agent::effective_status(a),
                        updated_at: ts,
                        ..a
                    };
                    &&& final(self)@ == set_agent(old(self)@, i, b)
                    &&& r.status@ == b.status
                },
                None => {
                    &&& final(self)@ == old(self)@
                    &&& r.status@ == constants::AGENT_STATUS_UNKNOWN@
                },
            },
            r.id == agent_id,
            r.thread_id == thread_id,
            r.turn_id == turn_id,
            r.project_id == project_id,
            r.role@ == agent::role_name(role),
            r.foreman_id == foreman_id,
            final(self).config == old(self).config,
            registry::well_formed(old(self)@) ==> registry::well_formed(final(self)@),
    {
        let ghost before = self@;
        proof {
            job::lemma_position_found(job::agent_ids(before.agents), agent_id);
        }
        let status = match find_agent(&self.agents, agent_id) {
            Some(i) => {
                let status = resolve_agent_status(&self.agents[i]);
                let agent = &mut self.agents[i];
                agent.status = status.clone();
                agent.updated_at = ts;
                let ghost settled = agent::AgentView {
                    status: agent::effective_status(before.agents[i as int]),
                    updated_at: ts,
                    ..before.agents[i as int]
                };
                proof {
                    assert(self@.agents == before.agents.update(i as int, settled));
                    registry::lemma_same_agents_stay_well_formed(before, self@);
                }
                status
            },
            None => constants::AGENT_STATUS_UNKNOWN.to_owned(),
        };
        SpawnAgentResponse {
            id: agent_id,
            thread_id,
            turn_id,
            status,
            project_id,
            role: role.as_str().to_owned(),
            foreman_id,
        }
    }

    /// Checks a request to an agent, and gives the agent the callback that it asks for.
    pub fn begin_send(&mut self, agent_id: u128, input: &SendAgentInput, env: &EnvVars, ts: u64) -> (r:
        Result<(), ForemanError>)
        ensures
            ({
                let at = job::position_of(job::agent_ids(old(self)@.agents), agent_id);
                if !agent_turns::has_prompt(*input) && !resolve::changes_callback(*input) {
                    &&& r matches Err(e) && e@ == seq![
                        "send requires either a non-empty prompt or at least one callback override"@,
                    ]
                    &&& final(self)@ == old(self)@
                } else if !resolve::changes_callback(*input) {
                    r is Ok && final(self)@ == old(self)@
                } else {
                    match at {
                        None => {
                            &&& r matches Err(e) && e@ == seq!["agent not found"@]
                            &&& final(self)@ == old(self)@
                        },
                        Some(i) => match resolve::send_resolved(
                            old(self).config,
                            *input,
                            old(self)@.agents[i].callback,
                            env@,
                        ) {
                            Ok(c) => r is Ok && final(self)@ == set_agent(
                                old(self)@,
                                i,
                                agent::AgentView {
                                    callback: c,
                                    updated_at: ts,
                                    ..old(self)@.agents[i]
                                },
                            ),
                            Err(chain) => {
                                &&& r matches Err(e) && e@ == seq![
                                    "failed to configure callback update"@,
                                ] + chain
                                &&& final(self)@ == old(self)@
                            },
                        },
                    }
                }
            }),
            final(self).config == old(self).config,
            registry::well_formed(old(self)@) ==> registry::well_formed(final(self)@),
    {
        let ghost before = self@;
        proof {
            job::lemma_position_found(job::agent_ids(before.agents), agent_id);
        }
        if let Err(e) = agent_turns::check_send(input) {
            return Err(e);
        }
        if !resolve::has_callback_update_fields(input) {
            return Ok(());
        }
        let i: usize = match self.agent_index(agent_id) {
            Ok(i) => i,
            Err(e) => {
                return Err(e);
            },
        };
        let r = agent_turns::update_callback(&mut self.agents[i], &self.config, input, env, ts);
        proof {
            assert(self@.agents == before.agents.update(i as int, self.agents@[i as int]@));
            assert(before.agents.update(i as int, before.agents[i as int]) == before.agents);
            registry::lemma_same_agents_stay_well_formed(before, self@);
        }
        r
    }

    /// Takes note of a request to an agent and of the turn that came of it.
    pub fn send_turn(
        &mut self,
        agent_id: u128,
        input: &SendAgentInput,
        turn_id: Option<String>,
        ts: u64,
    ) -> (r: Result<SpawnAgentResponse, ForemanError>)
        ensures
            match job::position_of(job::agent_ids(old(self)@.agents), agent_id) {
                Some(i) => {
                    let b = agent_turns::after_send(
                        old(self)@.agents[i],
                        *input,
                        text::opt_text(turn_id),
                        ts,
                    );
                    &&& final(self)@ == set_agent(old(self)@, i, b)
                    &&& r matches Ok(x) && agent_turns::tells_of(
                        x,
                        b,
                        text::opt_text(turn_id),
                        b.status,
                    )
                },
                None => {
                    &&& r matches Err(e) && e@ == seq!["agent missing"@]
                    &&& final(self)@ == old(self)@
                },
            },
            final(self).config == old(self).config,
            registry::well_formed(old(self)@) ==> registry::well_formed(final(self)@),
    {
        let ghost before = self@;
        proof {
            job::lemma_position_found(job::agent_ids(before.agents), agent_id);
        }
        match find_agent(&self.agents, agent_id) {
            Some(i) => {
                let response = agent_turns::send_turn(&mut self.agents[i], input, turn_id, ts);
                proof {
                    assert(self@.agents == before.agents.update(i as int, self.agents@[i as int]@));
                    registry::lemma_same_agents_stay_well_formed(before, self@);
                }
                Ok(response)
            },
            None => Err(ForemanError::from_text("agent missing")),
        }
    }

    /// Prepares an agent for another try in a mode.
    pub fn begin_retry(&mut self, agent_id: u128, mode: &str, ts: u64) -> (r: Result<
        RetryPlan,
        ForemanError,
    >)
        ensures
            match job::position_of(job::agent_ids(old(self)@.agents), agent_id) {
                Some(i) => match agent_turns::retry_problem(old(self)@.agents[i], mode@) {
                    Some(message) => {
                        &&& r matches Err(e) && e@ == seq![message]
                        &&& final(self)@ == old(self)@
                    },
                    None => {
                        let a = old(self)@.agents[i];
                        &&& r matches Ok(p) && p.from_checkpoint == agent_turns::resumes(a, mode@)
                            && p.prompt@ == agent_turns::retry_prompt(a, mode@)
                            && p.checkpoint_available == (
                        a.checkpoint.last_successful_turn_id is Some)
                        &&& final(self)@ == set_agent(
                            old(self)@,
                            i,
                            agent_turns::before_retry(a, mode@, ts),
                        )
                    },
                },
                None => {
                    &&& r matches Err(e) && e@ == (if mode@ != "last-turn"@ && mode@
                        != "checkpoint"@ {
                        seq!["retry mode must be 'last-turn' or 'checkpoint'"@]
                    } else {
                        seq!["agent not found"@]
                    })
                    &&& final(self)@ == old(self)@
                },
            },
            final(self).config == old(self).config,
            registry::well_formed(old(self)@) ==> registry::well_formed(final(self)@),
    {
        let ghost before = self@;
        proof {
            job::lemma_position_found(job::agent_ids(before.agents), agent_id);
        }
        match find_agent(&self.agents, agent_id) {
            Some(i) => {
                let r = agent_turns::begin_retry(&mut self.agents[i], mode, ts);
                proof {
                    assert(self@.agents == before.agents.update(i as int, self.agents@[i as int]@));
                    assert(before.agents.update(i as int, before.agents[i as int])
                        == before.agents);
                    registry::lemma_same_agents_stay_well_formed(before, self@);
                }
                r
            },
            None => if !text::same_text(mode, "last-turn") && !text::same_text(mode, "checkpoint") {
                Err(ForemanError::from_text("retry mode must be 'last-turn' or 'checkpoint'"))
            } else {
                Err(ForemanError::from_text("agent not found"))
            },
        }
    }

    /// Prepares an agent for another try, in the mode that a request names in any case.
    pub fn retry_agent(&mut self, agent_id: u128, request: &RetryAgentRequest, ts: u64) -> (r: Result<
        RetryPlan,
        ForemanError,
    >)
        ensures
            ({
                let mode = auth::unicode_lower(text::trimmed(request.mode@));
                match job::position_of(job::agent_ids(old(self)@.agents), agent_id) {
                    Some(i) => match agent_turns::retry_problem(old(self)@.agents[i], mode) {
                        Some(message) => {
                            &&& r matches Err(e) && e@ == seq![message]
                            &&& final(self)@ == old(self)@
                        },
                        None => {
                            let a = old(self)@.agents[i];
                            &&& r matches Ok(p) && p.from_checkpoint == agent_turns::resumes(a, mode)
                                && p.prompt@ == agent_turns::retry_prompt(a, mode)
                                && p.checkpoint_available == (
                            a.checkpoint.last_successful_turn_id is Some)
                            &&& final(self)@ == set_agent(
                                old(self)@,
                                i,
                                agent_turns::before_retry(a, mode, ts),
                            )
                        },
                    },
                    None => {
                        &&& r matches Err(e) && e@ == (if mode != "last-turn"@ && mode
                            != "checkpoint"@ {
                            seq!["retry mode must be 'last-turn' or 'checkpoint'"@]
                        } else {
                            seq!["agent not found"@]
                        })
                        &&& final(self)@ == old(self)@
                    },
                }
            }),
            final(self).config == old(self).config,
            registry::well_formed(old(self)@) ==> registry::well_formed(final(self)@),
    {
        let mode = to_lowercase(trim(request.mode.as_str()).as_str());
        self.begin_retry(agent_id, mode.as_str(), ts)
    }

    /// Takes note of the turn that came of an agent's other try, and tells of it.
    pub fn finish_retry(
        &mut self,
        agent_id: u128,
        plan: &RetryPlan,
        turn_id: Option<String>,
        ts: u64,
    ) -> (r: RetryAgentResponse)
        ensures
            match job::position_of(job::agent_ids(old(self)@.agents), agent_id) {
                Some(i) => final(self)@ == set_agent(
                    old(self)@,
                    i,
                    agent_turns::after_retry(old(self)@.agents[i], text::opt_text(turn_id), ts),
                ),
                None => final(self)@ == old(self)@,
            },
            r.agent_id == agent_id,
            r.selected_mode@ == agent_turns::mode_of(*plan),
            r.restarted_turn_id == turn_id,
            r.checkpoint_available == plan.checkpoint_available,
            final(self).config == old(self).config,
            registry::well_formed(old(self)@) ==> registry::well_formed(final(self)@),
    {
        let ghost before = self@;
        proof {
            job::lemma_position_found(job::agent_ids(before.agents), agent_id);
        }
        if let Some(i) = find_agent(&self.agents, agent_id) {
            agent_turns::finish_retry(&mut self.agents[i], &turn_id, ts);
            proof {
                assert(self@.agents == before.agents.update(i as int, self.agents@[i as int]@));
                registry::lemma_same_agents_stay_well_formed(before, self@);
            }
        }
        agent_turns::retry_response(agent_id, plan, turn_id)
    }

    /// The thread and the turn of an agent that are told something.
    pub fn steer_target(&self, agent_id: u128) -> (r: Result<(String, String), ForemanError>)
        ensures
            match job::agent_of(self@.agents, agent_id) {
                Some(a) => match a.active_turn_id {
                    Some(t) => r matches Ok(x) && x.0@ == a.thread_id && x.1@ == t,
                    None => r matches Err(e) && e@ == seq!["no active turn to steer"@],
                },
                None => r matches Err(e) && e@ == seq!["agent not found"@],
            },
    {
        match self.agent_index(agent_id) {
            Ok(i) => match agent_turns::steer_target(&self.agents[i]) {
                Ok(turn) => Ok((self.agents[i].thread_id.clone(), turn)),
                Err(e) => Err(e),
            },
            Err(e) => Err(e),
        }
    }

    /// Takes note of a turn of an agent that was told something.
    pub fn steer(&mut self, agent_id: u128, turn_id: String, ts: u64) -> (r: Option<
        SpawnAgentResponse,
    >)
        ensures
            match job::position_of(job::agent_ids(old(self)@.agents), agent_id) {
                Some(i) => {
                    let b = agent::AgentView {
                        status: constants::AGENT_STATUS_RUNNING@,
                        active_turn_id: Some(turn_id@),
                        updated_at: ts,
                        ..old(self)@.agents[i]
                    };
                    &&& final(self)@ == set_agent(old(self)@, i, b)
                    &&& r matches Some(x) && agent_turns::tells_of(
                        x,
                        b,
                        Some(turn_id@),
                        constants::AGENT_STATUS_RUNNING@,
                    )
                },
                None => r is None && final(self)@ == old(self)@,
            },
            final(self).config == old(self).config,
            registry::well_formed(old(self)@) ==> registry::well_formed(final(self)@),
    {
        let ghost before = self@;
        proof {
            job::lemma_position_found(job::agent_ids(before.agents), agent_id);
        }
        match find_agent(&self.agents, agent_id) {
            Some(i) => {
                let response = agent_turns::steer(&mut self.agents[i], turn_id, ts);
                proof {
                    assert(self@.agents == before.agents.update(i as int, self.agents@[i as int]@));
                    registry::lemma_same_agents_stay_well_formed(before, self@);
                }
                Some(response)
            },
            None => None,
        }
    }

    /// The thread and the turn of an agent that are stopped.
    pub fn interrupt_target(&self, agent_id: u128, input: InterruptInput) -> (r: Result<
        (String, String),
        ForemanError,
    >)
        ensures
            match job::agent_of(self@.agents, agent_id) {
                Some(a) => match json::either(text::opt_text(input.turn_id), a.active_turn_id) {
                    Some(t) => r matches Ok(x) && x.0@ == a.thread_id && x.1@ == t,
                    None => r matches Err(e) && e@ == seq!["no active turn to interrupt"@],
                },
                None => r matches Err(e) && e@ == seq!["agent not found"@],
            },
    {
        match self.agent_index(agent_id) {
            Ok(i) => match agent_turns::interrupt_target(&self.agents[i], input.turn_id) {
                Ok(turn) => Ok((self.agents[i].thread_id.clone(), turn)),
                Err(e) => Err(e),
            },
            Err(e) => Err(e),
        }
    }

    /// Takes note of a turn of an agent that was stopped.
    pub fn interrupt(&mut self, agent_id: u128, ts: u64)
        ensures
            match job::position_of(job::agent_ids(old(self)@.agents), agent_id) {
                Some(i) => final(self)@ == set_agent(
                    old(self)@,
                    i,
                    agent::AgentView {
                        status: constants::AGENT_STATUS_INTERRUPTED@,
                        updated_at: ts,
                        ..old(self)@.agents[i]
                    },
                ),
                None => final(self)@ == old(self)@,
            },
            final(self).config == old(self).config,
            registry::well_formed(old(self)@) ==> registry::well_formed(final(self)@),
    {
        let ghost before = self@;
        proof {
            job::lemma_position_found(job::agent_ids(before.agents), agent_id);
        }
        if let Some(i) = find_agent(&self.agents, agent_id) {
            agent_turns::interrupt(&mut self.agents[i], ts);
            proof {
                assert(self@.agents == before.agents.update(i as int, self.agents@[i as int]@));
                registry::lemma_same_agents_stay_well_formed(before, self@);
            }
        }
    }

    /// The foreman of a project, to whom a request goes.
    pub fn send_to_project_foreman(&self, project_id: u128) -> (r: Result<u128, ForemanError>)
        ensures
            match registry::project_of(self@.projects, project_id) {
                Some(p) => match p.foreman_agent_id {
                    Some(id) => r matches Ok(x) && x == id,
                    None => r matches Err(e) && e@ == seq!["project not found"@],
                },
                None => r matches Err(e) && e@ == seq!["project not found"@],
            },
    {
        match find_project(&self.projects, project_id) {
            Some(i) => match self.projects[i].foreman_agent_id {
                Some(id) => Ok(id),
                None => Err(ForemanError::from_text("project not found")),
            },
            None => Err(ForemanError::from_text("project not found")),
        }
    }

    /// The position of a project and its foreman, for what needs both.
    pub fn project_and_foreman(&self, project_id: u128) -> (r: Result<(usize, u128), ForemanError>)
        ensures
            match job::position_of(registry::project_ids(self@.projects), project_id) {
                Some(i) => match self@.projects[i].foreman_agent_id {
                    Some(id) => r matches Ok(x) && x.0 == i && x.1 == id && i < self.projects@.len(),
                    None => r matches Err(e) && e@ == seq!["project has no foreman"@],
                },
                None => r matches Err(e) && e@ == seq!["project not found"@],
            },
    {
        match self.project_index(project_id) {
            Ok(i) => match self.projects[i].foreman_agent_id {
                Some(id) => Ok((i, id)),
                None => Err(ForemanError::from_text("project has no foreman")),
            },
            Err(e) => Err(e),
        }
    }

    /// Takes note that something happened to the workers of a project.
    pub fn update_project_after_worker_event(&mut self, project_id: u128, ts: u64) -> (r: Result<
        (),
        ForemanError,
    >)
        ensures
            match job::position_of(registry::project_ids(old(self)@.projects), project_id) {
                Some(i) => r is Ok && final(self)@ == (registry::ForemanView {
                    projects: old(self)@.projects.update(
                        i,
                        projects::ProjectView { updated_at: ts, ..old(self)@.projects[i] },
                    ),
                    ..old(self)@
                }),
                None => {
                    &&& r matches Err(e) && e@ == seq!["project not found"@]
                    &&& final(self)@ == old(self)@
                },
            },
            final(self).config == old(self).config,
            registry::well_formed(old(self)@) ==> registry::well_formed(final(self)@),
    {
        proof {
            registry::lemma_identifiers_stay(self@);
        }
        let ghost before = self@;
        proof {
            job::lemma_position_found(registry::project_ids(before.projects), project_id);
        }
        match self.project_index(project_id) {
            Ok(i) => {
                let project = &mut self.projects[i];
                project.updated_at = ts;
                assert(self@.projects == before.projects.update(
                    i as int,
                    projects::ProjectView { updated_at: ts, ..before.projects[i as int] },
                ));
                Ok(())
            },
            Err(e) => Err(e),
        }
    }

    /// Adds a worker to the list of a project, where the project is still there.
    pub fn add_project_workers(&mut self, project_id: u128, workers: &Vec<u128>, ts: u64)
        ensures
            match job::position_of(registry::project_ids(old(self)@.projects), project_id) {
                Some(i) => final(self)@ == (registry::ForemanView {
                    projects: old(self)@.projects.update(
                        i,
                        projects::ProjectView {
                            worker_ids: old(self)@.projects[i].worker_ids + workers@,
                            updated_at: ts,
                            ..old(self)@.projects[i]
                        },
                    ),
                    ..old(self)@
                }),
                None => final(self)@ == old(self)@,
            },
            final(self).config == old(self).config,
            registry::well_formed(old(self)@) ==> registry::well_formed(final(self)@),
    {
        proof {
            registry::lemma_identifiers_stay(self@);
        }
        let ghost before = self@;
        proof {
            job::lemma_position_found(registry::project_ids(before.projects), project_id);
        }
        if let Some(i) = find_project(&self.projects, project_id) {
            let mut list = models::clone_ids(&self.projects[i].worker_ids);
            let ghost first = list@;
            let mut k: usize = 0;
            assert(workers@.take(0) == Seq::<u128>::empty());
            assert(first + workers@.take(0) == first);
            while k < workers.len()
                invariant
                    k <= workers@.len(),
                    list@ == first + workers@.take(k as int),
                decreases workers@.len() - k,
            {
                list.push(workers[k]);
                assert(first + workers@.take(k + 1) == (first + workers@.take(k as int)).push(
                    workers@[k as int],
                ));
                k += 1;
            }
            assert(workers@.take(k as int) == workers@);
            let project = &mut self.projects[i];
            project.worker_ids = list;
            project.updated_at = ts;
            assert(self@.projects == before.projects.update(
                i as int,
                projects::ProjectView {
                    worker_ids: first + workers@,
                    updated_at: ts,
                    ..before.projects[i as int]
                },
            ));
        }
    }

    /// Closes the agents of a project that was taken out of the service, and takes out its jobs.
    pub fn close_project(&mut self, project_id: u128, agents: &Vec<u128>, ts: u64)
        ensures
            ({
                let closed = after_closing(old(self)@, agents@, ts);
                final(self)@ == (registry::ForemanView {
                    jobs: registry::jobs_without(closed.jobs, project_id),
                    ..closed
                })
            }),
            final(self).config == old(self).config,
            registry::well_formed(old(self)@) ==> registry::well_formed(final(self)@),
    {
        let ghost before = self@;
        let mut i: usize = 0;
        assert(agents@.take(0) == Seq::<u128>::empty());
        while i < agents.len()
            invariant
                i <= agents@.len(),
                self@ == after_closing(before, agents@.take(i as int), ts),
                self.config == old(self).config,
                registry::well_formed(before) ==> registry::well_formed(self@),
            decreases agents@.len() - i,
        {
            proof {
                assert(agents@.take(i + 1).drop_last() == agents@.take(i as int));
                assert(agents@.take(i + 1).last() == agents@[i as int]);
            }
            let _ = self.close_agent(agents[i], ts);
            i += 1;
        }
        assert(agents@.take(i as int) == agents@);
        self.drop_project_jobs(project_id);
    }

    /// Says how the workers of a job would get in each other's way.
    pub fn plan_project_jobs(&self, project_id: u128, request: &PlanProjectJobsRequest) -> (r: Result<
        PlanProjectJobsResponse,
        ForemanError,
    >)
        ensures
            match r {
                Ok(plan) => {
                    &&& request.workers@.len() > 0
                    &&& forall|j: int|
                        0 <= j < request.workers@.len() ==> !scope::repeats(
                            scope::worker_names(request.workers@),
                            j,
                        )
                    &&& registry::project_of(self@.projects, project_id) matches Some(p)
                        && jobs::is_plan(plan, p, request.workers@, request.declared_scope_paths@)
                },
                Err(e) => if request.workers@.len() == 0 {
                    e@ == seq!["at least one worker spec is required"@]
                } else if registry::project_of(self@.projects, project_id) is None {
                    e@ == seq!["project not found"@]
                } else {
                    exists|j: int| #[trigger]
                        scope::first_repeat(scope::worker_names(request.workers@), j) && e@ == seq![
                            "duplicate worker name '"@ + scope::worker_names(request.workers@)[j]
                                + "'"@,
                        ]
                },
            },
    {
        if request.workers.len() == 0 {
            return Err(ForemanError::from_text("at least one worker spec is required"));
        }
        match self.project_index(project_id) {
            Ok(i) => jobs::plan_project_jobs(&self.projects[i], request),
            Err(e) => Err(e),
        }
    }

    /// Looks at the workers of a job: holds back for good those that need one that failed, and
    /// says which start.
    pub fn launch_runnable_workers(&mut self, job_id: u128, ts: u64) -> (r: Result<
        Vec<StartOrder>,
        ForemanError,
    >)
        ensures
            match job::position_of(registry::job_ids(old(self)@.jobs), job_id) {
                Some(i) => {
                    let j = old(self)@.jobs[i];
                    let l = launch::look_at_all(old(self)@.agents, j, j.worker_ids, ts);
                    &&& r matches Ok(starts) && launch::start_views(starts@) == l.starts
                    &&& final(self)@ == (registry::ForemanView {
                        agents: l.agents,
                        jobs: old(self)@.jobs.update(i, launch::after_launch(j, l, ts)),
                        ..old(self)@
                    })
                },
                None => {
                    &&& r matches Err(e) && e@ == seq!["job not found"@]
                    &&& final(self)@ == old(self)@
                },
            },
            final(self).config == old(self).config,
            registry::well_formed(old(self)@) ==> registry::well_formed(final(self)@),
    {
        proof {
            registry::lemma_identifiers_stay(self@);
        }
        let ghost before = self@;
        proof {
            job::lemma_position_found(registry::job_ids(before.jobs), job_id);
        }
        match self.job_index(job_id) {
            Ok(i) => {
                let starts = launch::launch_runnable_workers(
                    &mut self.jobs[i],
                    &mut self.agents,
                    ts,
                );
                proof {
                    let j = before.jobs[i as int];
                    launch::lemma_same_agents(before.agents, j, j.worker_ids, ts);
                    assert(self@.jobs == before.jobs.update(i as int, self.jobs@[i as int]@));
                }
                Ok(starts)
            },
            Err(e) => Err(e),
        }
    }

    /// Gives a job the status that its workers ask for. Names the status where the job has ended
    /// with it.
    pub fn update_job_after_worker_event(
        &mut self,
        job_id: u128,
        at_hand: &Option<models::AgentResult>,
        ts: u64,
    ) -> (r: Result<Option<String>, ForemanError>)
        ensures
            match job::position_of(registry::job_ids(old(self)@.jobs), job_id) {
                Some(i) => {
                    let j = old(self)@.jobs[i];
                    let after = job::settled(
                        j,
                        job::known_results(
                            old(self)@.agents,
                            j.worker_ids,
                            models::opt_result(*at_hand),
                        ),
                        ts,
                    );
                    &&& final(self)@ == (registry::ForemanView {
                        jobs: old(self)@.jobs.update(i, after),
                        ..old(self)@
                    })
                    &&& r matches Ok(ended) && text::opt_text(ended) == (if !job::is_terminal(
                        j.status,
                    ) && job::is_terminal(after.status) {
                        Some(after.status)
                    } else {
                        None
                    })
                },
                None => {
                    &&& r matches Err(e) && e@ == seq!["job not found"@]
                    &&& final(self)@ == old(self)@
                },
            },
            final(self).config == old(self).config,
            registry::well_formed(old(self)@) ==> registry::well_formed(final(self)@),
    {
        proof {
            registry::lemma_identifiers_stay(self@);
        }
        let ghost before = self@;
        proof {
            job::lemma_position_found(registry::job_ids(before.jobs), job_id);
        }
        match self.job_index(job_id) {
            Ok(i) => {
                let ended = job::update_job_after_worker_event(
                    &mut self.jobs[i],
                    &self.agents,
                    at_hand,
                    ts,
                );
                assert(self@.jobs == before.jobs.update(i as int, self.jobs@[i as int]@));
                Ok(ended)
            },
            Err(e) => Err(e),
        }
    }

    /// Sets the status of each agent right that still counts as busy though it has a result.
    pub fn reconcile_agent_statuses(&mut self, ts: u64)
        ensures
            final(self)@ == (registry::ForemanView {
                agents: all_reconciled(old(self)@.agents, ts),
                ..old(self)@
            }),
            final(self).config == old(self).config,
            registry::well_formed(old(self)@) ==> registry::well_formed(final(self)@),
    {
        let ghost before = self@;
        let n: usize = self.agents.len();
        let mut i: usize = 0;
        while i < n
            invariant
                i <= n,
                n == self.agents@.len(),
                n == before.agents.len(),
                self@ == (registry::ForemanView { agents: self@.agents, ..before }),
                self.config == old(self).config,
                forall|k: int|
                    0 <= k < i ==> (#[trigger] self@.agents[k]) == monitoring::reconciled(
                        before.agents[k],
                        ts,
                    ),
                forall|k: int| i <= k < n ==> (#[trigger] self@.agents[k]) == before.agents[k],
            decreases n - i,
        {
            let ghost now = self@.agents;
            monitoring::reconcile_status(&mut self.agents[i], ts);
            proof {
                assert(now[i as int] == before.agents[i as int]);
                assert(self@.agents == now.update(
                    i as int,
                    monitoring::reconciled(before.agents[i as int], ts),
                ));
            }
            i += 1;
        }
        assert(self@.agents == all_reconciled(before.agents, ts));
        assert(job::agent_ids(self@.agents) == job::agent_ids(before.agents));
    }

    /// The worktrees that agents leave behind, in order.
    pub fn cleanup_residual_worktrees(&self) -> (r: Vec<ResidualWorktree>)
        ensures
            residual_views(r@) == residuals(self@.agents, self@.projects),
    {
        let ghost all = self@.agents;
        let mut r: Vec<ResidualWorktree> = Vec::new();
        let mut i: usize = 0;
        proof {
            assert(all.take(0) == Seq::<agent::AgentView>::empty());
            assert(residual_views(r@) == Seq::<ResidualView>::empty());
        }
        while i < self.agents.len()
            invariant
                i <= self.agents@.len(),
                all == self@.agents,
                residual_views(r@) == residuals(all.take(i as int), self@.projects),
            decreases self.agents@.len() - i,
        {
            proof {
                assert(all.take(i + 1).drop_last() == all.take(i as int));
                assert(all.take(i + 1).last() == self.agents@[i as int]@);
            }
            let agent = &self.agents[i];
            if let Some(worktree_path) = &agent.worktree_path {
                if let Some(project_id) = agent.project_id {
                    if let Some(k) = find_project(&self.projects, project_id) {
                        let residual = ResidualWorktree {
                            agent_id: agent.id,
                            project_path: self.projects[k].path.clone(),
                            worktree_path: worktree_path.clone(),
                            branch_name: agent.branch_name.clone(),
                        };
                        assert(residual_views(r@.push(residual)) == residual_views(r@).push(
                            ResidualView {
                                agent_id: residual.agent_id,
                                project_path: residual.project_path@,
                                worktree_path: residual.worktree_path@,
                                branch_name: text::opt_text(residual.branch_name),
                            },
                        ));
                        r.push(residual);
                    }
                }
            }
            i += 1;
        }
        assert(all.take(i as int) == all);
        r
    }

    /// The identifiers of the workers, in order.
    pub fn list_worker_ids(&self) -> (r: Vec<u128>)
        ensures
            r@ == worker_ids(self@.agents),
    {
        let ghost all = self@.agents;
        let mut r: Vec<u128> = Vec::new();
        let mut i: usize = 0;
        assert(all.take(0) == Seq::<agent::AgentView>::empty());
        while i < self.agents.len()
            invariant
                i <= self.agents@.len(),
                all == self@.agents,
                r@ == worker_ids(all.take(i as int)),
            decreases self.agents@.len() - i,
        {
            proof {
                assert(all.take(i + 1).drop_last() == all.take(i as int));
                assert(all.take(i + 1).last() == self.agents@[i as int]@);
            }
            if self.agents[i].role == AgentRole::Worker {
                r.push(self.agents[i].id);
            }
            i += 1;
        }
        assert(all.take(i as int) == all);
        r
    }

    /// How many agents and projects there are, since when the service runs, and for how long.
    pub fn status_summary(&self, now: u64) -> (r: (usize, usize, u64, u64))
        ensures
            r.0 == self@.agents.len(),
            r.1 == self@.projects.len(),
            r.2 == self@.started_at,
            r.3 == (if now >= self@.started_at {
                now - self@.started_at
            } else {
                0
            }),
    {
        (
            self.agents.len(),
            self.projects.len(),
            self.started_at,
            now.saturating_sub(self.started_at),
        )
    }

    /// How many callback profiles are configured.
    pub fn configured_callback_profile_count(&self) -> (r: usize)
        ensures
            r == self.config.callbacks.profiles.items().len(),
    {
        self.config.callbacks.profiles.len()
    }

    /// The callback profile that agents get which ask for none.
    pub fn default_callback_profile(&self) -> (r: Option<String>)
        ensures
            r == self.config.callbacks.default_profile,
    {
        self.config.default_callback_profile()
    }

    /// The agents that have to wait, in order.
    pub fn list_throttled_workers(&self) -> (r: Vec<ThrottledWorkerStatus>)
        ensures
            agent_status::throttle_views(r@) == agent_status::waiting(self@.agents),
    {
        agent_status::list_throttled_workers(&self.agents)
    }

    /// The states of the agents.
    pub fn list_agents(&self, now: u64) -> (r: Vec<AgentState>)
        ensures
            r@.len() == self@.agents.len(),
            forall|i: int|
                0 <= i < r@.len() ==> agent_status::is_agent_state(
                    #[trigger] r@[i],
                    self@.agents[i],
                    self.config.budgets.defaults,
                    now,
                ),
    {
        let mut r: Vec<AgentState> = Vec::new();
        let mut i: usize = 0;
        while i < self.agents.len()
            invariant
                i <= self.agents@.len(),
                r@.len() == i,
                forall|k: int|
                    0 <= k < i ==> agent_status::is_agent_state(
                        #[trigger] r@[k],
                        self@.agents[k],
                        self.config.budgets.defaults,
                        now,
                    ),
            decreases self.agents@.len() - i,
        {
            assert(self@.agents[i as int] == self.agents@[i as int]@);
            r.push(
                agent_status::build_agent_state(
                    &self.agents[i],
                    &self.config.budgets.defaults,
                    now,
                ),
            );
            i += 1;
        }
        r
    }

    /// The state of an agent.
    pub fn get_agent(&self, agent_id: u128, now: u64) -> (r: Result<AgentState, ForemanError>)
        ensures
            match job::agent_of(self@.agents, agent_id) {
                Some(a) => r matches Ok(s) && agent_status::is_agent_state(
                    s,
                    a,
                    self.config.budgets.defaults,
                    now,
                ),
                None => r matches Err(e) && e@ == seq!["agent not found"@],
            },
    {
        match self.agent_index(agent_id) {
            Ok(i) => Ok(
                agent_status::build_agent_state(
                    &self.agents[i],
                    &self.config.budgets.defaults,
                    now,
                ),
            ),
            Err(e) => Err(e),
        }
    }

    /// The last events of an agent.
    pub fn get_agent_events(&self, agent_id: u128, tail: Option<usize>) -> (r: Result<
        Vec<AgentEventDto>,
        ForemanError,
    >)
        ensures
            match job::agent_of(self@.agents, agent_id) {
                Some(a) => r matches Ok(v) && models::event_views(v@) == agent_status::tail_of(
                    a.events,
                    tail,
                ),
                None => r matches Err(e) && e@ == seq!["agent not found"@],
            },
    {
        match self.agent_index(agent_id) {
            Ok(i) => Ok(agent_status::get_agent_events(&self.agents[i], tail)),
            Err(e) => Err(e),
        }
    }

    /// The last lines of the log of the tools that an agent used.
    pub fn get_agent_logs(
        &self,
        agent_id: u128,
        tail: Option<usize>,
        turn_filter: Option<u32>,
    ) -> (r: Result<Vec<WorkerLogEntry>, ForemanError>)
        ensures
            match job::agent_of(self@.agents, agent_id) {
                Some(a) => r matches Ok(v) && agent_status::log_views(v@) == agent_status::tail_of(
                    agent_status::log_of(a.events, turn_filter),
                    tail,
                ),
                None => r matches Err(e) && e@ == seq!["agent not found"@],
            },
    {
        match self.agent_index(agent_id) {
            Ok(i) => Ok(agent_status::get_agent_logs(&self.agents[i], tail, turn_filter)),
            Err(e) => Err(e),
        }
    }

    /// What an agent's work came to.
    pub fn get_agent_result(&self, agent_id: u128) -> (r: Result<AgentResultResponse, ForemanError>)
        ensures
            match job::agent_of(self@.agents, agent_id) {
                Some(a) => r matches Ok(x) && agent_status::is_result_of(
                    x,
                    a,
                    self.config.budgets.defaults,
                ),
                None => r matches Err(e) && e@ == seq!["agent not found"@],
            },
    {
        match self.agent_index(agent_id) {
            Ok(i) => Ok(
                agent_status::get_agent_result(&self.agents[i], &self.config.budgets.defaults),
            ),
            Err(e) => Err(e),
        }
    }

    /// What is told while an agent is waited for: its result once there is nothing more to wait
    /// for or the time is up, and nothing before that.
    pub fn wait_for_agent_result(&self, agent_id: u128, timed_out: bool, include_events: bool) -> (r:
        Option<AgentWaitResponse>)
        ensures
            match job::agent_of(self@.agents, agent_id) {
                Some(a) => match r {
                    Some(w) => {
                        &&& agent_status::is_result_of(w.result, a, self.config.budgets.defaults)
                        &&& w.timed_out == !agent_status::is_done(w.result)
                        &&& agent_status::is_done(w.result) || timed_out
                        &&& w.events is Some == include_events
                        &&& w.events matches Some(v) ==> models::event_views(v@) == a.events
                    },
                    None => !timed_out && forall|x: AgentResultResponse|
                        #![trigger agent_status::is_done(x)]
                        agent_status::is_result_of(x, a, self.config.budgets.defaults)
                            ==> !agent_status::is_done(x),
                },
                None => if timed_out {
                    r matches Some(w) && w.timed_out && w.events is None
                        && agent_status::is_unknown(
                        w.result,
                        agent_id,
                        constants::AGENT_STATUS_UNKNOWN@,
                        "wait timeout"@,
                    )
                } else {
                    r is None
                },
            },
    {
        match find_agent(&self.agents, agent_id) {
            Some(i) => {
                let result = agent_status::get_agent_result(
                    &self.agents[i],
                    &self.config.budgets.defaults,
                );
                let done = agent_status::is_wait_complete(&result);
                if !done && !timed_out {
                    return None;
                }
                let events = if include_events {
                    Some(models::clone_events(&self.agents[i].events))
                } else {
                    None
                };
                Some(AgentWaitResponse { result, timed_out: !done, events })
            },
            None => if timed_out {
                Some(
                    AgentWaitResponse {
                        result: agent_status::unknown_result(
                            agent_id,
                            constants::AGENT_STATUS_UNKNOWN,
                            "wait timeout",
                        ),
                        timed_out: true,
                        events: None,
                    },
                )
            } else {
                None
            },
        }
    }

    /// What is told of the events of an agent from a time on, in the order of their times.
    pub fn get_agent_progress_backlog(&self, agent_id: u128, since_ts: Option<u64>) -> (r: Result<
        Vec<AgentProgressEnvelope>,
        ForemanError,
    >)
        ensures
            match job::agent_of(self@.agents, agent_id) {
                Some(a) => r matches Ok(v) && agent_status::tells_in_order(
                    v@,
                    a,
                    agent_status::since(a.events, agent_status::from_time(since_ts)),
                ),
                None => r matches Err(e) && e@ == seq!["agent not found"@],
            },
    {
        match self.agent_index(agent_id) {
            Ok(i) => Ok(agent_status::get_agent_progress_backlog(&self.agents[i], since_ts)),
            Err(e) => Err(e),
        }
    }

    /// The states of the projects.
    pub fn list_projects(&self) -> (r: Vec<ProjectState>)
        ensures
            r@.len() == self@.projects.len(),
            forall|i: int|
                0 <= i < r@.len() ==> projects::is_project_state(
                    #[trigger] r@[i],
                    self@.projects[i],
                ),
    {
        let mut r: Vec<ProjectState> = Vec::new();
        let mut i: usize = 0;
        while i < self.projects.len()
            invariant
                i <= self.projects@.len(),
                r@.len() == i,
                forall|k: int|
                    0 <= k < i ==> projects::is_project_state(
                        #[trigger] r@[k],
                        self@.projects[k],
                    ),
            decreases self.projects@.len() - i,
        {
            assert(self@.projects[i as int] == self.projects@[i as int]@);
            r.push(projects::get_project(&self.projects[i]));
            i += 1;
        }
        r
    }

    /// The state of a project.
    pub fn get_project(&self, project_id: u128) -> (r: Result<ProjectState, ForemanError>)
        ensures
            match registry::project_of(self@.projects, project_id) {
                Some(p) => r matches Ok(s) && projects::is_project_state(s, p),
                None => r matches Err(e) && e@ == seq!["project not found"@],
            },
    {
        match self.project_index(project_id) {
            Ok(i) => Ok(projects::get_project(&self.projects[i])),
            Err(e) => Err(e),
        }
    }

    /// What a project's callbacks came to.
    pub fn get_project_callback_status(&self, project_id: u128) -> (r: Result<
        ProjectCallbackStatusResponse,
        ForemanError,
    >)
        ensures
            match registry::project_of(self@.projects, project_id) {
                Some(p) => r matches Ok(s) && s.project_id == p.id && crate::vars::values_of(
                    s.callbacks@,
                ) == crate::vars::nothing_run().union_prefer_right(p.callback_status),
                None => r matches Err(e) && e@ == seq!["project not found"@],
            },
    {
        match self.project_index(project_id) {
            Ok(i) => Ok(projects::get_project_callback_status(&self.projects[i])),
            Err(e) => Err(e),
        }
    }

    /// The states of the jobs.
    pub fn list_jobs(&self) -> (r: Vec<JobState>)
        ensures
            r@.len() == self@.jobs.len(),
            forall|i: int|
                0 <= i < r@.len() ==> job_status::is_job_state(
                    #[trigger] r@[i],
                    self@.jobs[i],
                    self.jobs@[i].worker_labels.items(),
                    self@.agents,
                ),
    {
        let mut r: Vec<JobState> = Vec::new();
        let mut i: usize = 0;
        while i < self.jobs.len()
            invariant
                i <= self.jobs@.len(),
                r@.len() == i,
                forall|k: int|
                    0 <= k < i ==> job_status::is_job_state(
                        #[trigger] r@[k],
                        self@.jobs[k],
                        self.jobs@[k].worker_labels.items(),
                        self@.agents,
                    ),
            decreases self.jobs@.len() - i,
        {
            assert(self@.jobs[i as int] == self.jobs@[i as int]@);
            r.push(job_status::get_job(&self.jobs[i], &self.agents));
            i += 1;
        }
        r
    }

    /// The state of a job.
    pub fn get_job(&self, job_id: u128) -> (r: Result<JobState, ForemanError>)
        ensures
            match job::position_of(registry::job_ids(self@.jobs), job_id) {
                Some(i) => r matches Ok(s) && job_status::is_job_state(
                    s,
                    self@.jobs[i],
                    self.jobs@[i].worker_labels.items(),
                    self@.agents,
                ),
                None => r matches Err(e) && e@ == seq!["job not found"@],
            },
    {
        match self.job_index(job_id) {
            Ok(i) => Ok(job_status::get_job(&self.jobs[i], &self.agents)),
            Err(e) => Err(e),
        }
    }

    /// What a job came to.
    pub fn get_job_result(&self, job_id: u128) -> (r: Result<JobResult, ForemanError>)
        ensures
            match job::position_of(registry::job_ids(self@.jobs), job_id) {
                Some(i) => r matches Ok(x) && job_status::is_job_result(
                    x,
                    self@.jobs[i],
                    self.jobs@[i].worker_labels.items(),
                    self@.agents,
                    self.config.budgets.defaults,
                ),
                None => r matches Err(e) && e@ == seq!["job not found"@],
            },
    {
        match self.job_index(job_id) {
            Ok(i) => Ok(
                job_status::get_job_result(
                    &self.jobs[i],
                    &self.agents,
                    &self.config.budgets.defaults,
                ),
            ),
            Err(e) => Err(e),
        }
    }

    /// The events of a job's workers from a time on, in the order of their times.
    pub fn get_job_event_backlog(&self, job_id: u128, since_ts: Option<u64>) -> (r: Result<
        Vec<JobEventEnvelope>,
        ForemanError,
    >)
        ensures
            match registry::job_of(self@.jobs, job_id) {
                Some(j) => r matches Ok(v) && job_status::is_backlog(
                    v@,
                    j.id,
                    job_status::worker_events(
                        self@.agents,
                        j.worker_ids,
                        agent_status::from_time(since_ts),
                    ),
                ),
                None => r matches Err(e) && e@ == seq!["job not found"@],
            },
    {
        match self.job_index(job_id) {
            Ok(i) => Ok(
                job_status::get_job_event_backlog(&self.jobs[i], &self.agents, since_ts),
            ),
            Err(e) => Err(e),
        }
    }
}

/// An event of a thread that has no agent yet is not lost: it is the last of those that are kept
/// for the thread, and no other thread is touched.
pub proof fn law_early_events_are_kept(
    pending: Map<Seq<char>, Seq<models::EventView>>,
    thread: Seq<char>,
    other: Seq<char>,
    e: models::EventView,
)
    ensures
        queued(pending, thread, e).dom().contains(thread),
        queued(pending, thread, e)[thread].last() == e,
        queued(pending, thread, e)[thread].len() <= constants::EVENT_BUFFER_MAX,
        other != thread ==> queued(pending, thread, e).dom().contains(other)
            == pending.dom().contains(other),
        other != thread && pending.dom().contains(other) ==> queued(pending, thread, e)[other]
            == pending[other],
{
}

/// An event that comes with the prefix of the server is known by what stands behind it.
pub proof fn law_events_are_known_without_the_prefix(method: Seq<char>)
    ensures
        normalized_method("codex/event/"@ + method) == method,
        !text::begins(method, "codex/event/"@) ==> normalized_method(method) == method,
{
    let p = "codex/event/"@;
    let m = p + method;
    assert(m.subrange(0, p.len() as int) == p);
    assert(text::occurs_at(m, p, 0));
    assert(m.skip(p.len() as int) == method);
}

/// An event of a thread that is not known yet is kept for it, as it came; one of a known thread, or
/// of none, keeps nothing, and nothing else changes.
pub proof fn law_unknown_threads_get_their_events_later(
    v: registry::ForemanView,
    method: Seq<char>,
    params: json::JsonView,
    ts: u64,
)
    ensures
        ({
            let w = after_notification(v, method, params, ts);
            let thread = protocol::thread_of(params);
            &&& thread is None ==> w == v
            &&& thread is Some && v.threads.dom().contains(thread->0) ==> w == v
            &&& thread is Some && !v.threads.dom().contains(thread->0)
                ==> w.pending.dom().contains(thread->0) && w.pending[thread->0].last().ts == ts
                && w.pending[thread->0].last().params == params
                && w.pending[thread->0].last().method == normalized_method(method)
            &&& w.agents == v.agents && w.threads == v.threads && w.projects == v.projects && w.jobs
                == v.jobs && w.governors == v.governors
        }),
{
}

/// The workers are the agents with this role, in order; a worktree is left over exactly where an
/// agent has one in a project that there is.
pub proof fn law_workers_and_worktrees_are_listed(
    agents: Seq<agent::AgentView>,
    a: agent::AgentView,
    projects: Seq<projects::ProjectView>,
)
    ensures
        a.role == AgentRole::Worker ==> worker_ids(agents.push(a)) == worker_ids(agents).push(a.id),
        a.role != AgentRole::Worker ==> worker_ids(agents.push(a)) == worker_ids(agents),
        worker_ids(Seq::<agent::AgentView>::empty()).len() == 0,
        a.worktree_path is Some && a.project_id is Some && registry::project_of(
            projects,
            a.project_id->0,
        ) is Some ==> residuals(agents.push(a), projects) == residuals(agents, projects).push(
            ResidualView {
                agent_id: a.id,
                project_path: registry::project_of(projects, a.project_id->0)->0.path,
                worktree_path: a.worktree_path->0,
                branch_name: a.branch_name,
            },
        ),
        a.worktree_path is None || a.project_id is None ==> residuals(agents.push(a), projects)
            == residuals(agents, projects),
{
    assert(agents.push(a).drop_last() == agents);
}

/// What a request for an agent says of its callback is taken as it is, with the profile by default
/// where it names none.
pub proof fn law_new_agents_take_the_callback_asked_for(request: SpawnAgentRequest)
    ensures
        spawn_params(request).use_global_default,
        spawn_params(request).profile == text::opt_text(request.callback_profile),
        spawn_params(request).args == text::opt_texts(request.callback_args),
        spawn_params(request).events == text::opt_texts(request.callback_events),
        spawn_params(request).prompt_prefix == text::opt_text(request.callback_prompt_prefix),
{
}

} // verus!

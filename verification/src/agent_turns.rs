//! The turns of an agent: how one is started, held back, told something and stopped.
use vstd::prelude::*;

use crate::agent;
use crate::agent::{AgentRecord, AgentRole, WorkerBudgetState, WorkerCallback, WorkerCheckpoint};
use crate::agent_events;
use crate::agent_events::{progress_budget_state, progress_throttle_state};
use crate::budget;
use crate::budget::{apply_budget_transition, evaluate_budget, CostCheck};
use crate::config::{BudgetDefaultsConfig, BudgetOnExceed, ServiceConfig};
use crate::constants;
use crate::error::ForemanError;
use crate::failure;
use crate::failure::update_failure_report;
use crate::governor;
use crate::governor::{
    governor_apply_rate_limit, governor_apply_success, governor_key, is_rate_limit_error, opt_ref,
    GovernorState,
};
use crate::json;
use crate::json_search;
use crate::json_search::truncate_text;
use crate::models::{
    AgentProgressEnvelope, FailureClass, RetryAgentResponse, SendAgentInput, SpawnAgentRequest,
    SpawnAgentResponse,
};
use crate::resolve;
use crate::resolve::{has_callback_update_fields, resolve_callback_for_send, EnvVars};
use crate::text;
use crate::text::{same_text, trims_to_empty};
use crate::text_map::TextMap;

verus! {

/// The state of a provider and model: the one that is known, or that of which nothing is known.
pub open spec fn state_of(governors: Map<Seq<char>, GovernorState>, key: Seq<char>) -> GovernorState {
    if governors.dom().contains(key) {
        governors[key]
    } else {
        GovernorState { throttled_until_ms: 0, backoff_ms: 0, recent_errors: 0, inflight_count: 0 }
    }
}

fn read_state(governors: &TextMap<GovernorState>, key: &str) -> (r: GovernorState)
    ensures
        r == state_of(governors@, key@),
{
    match governors.get(key) {
        Some(state) => *state,
        None => GovernorState::default(),
    }
}

/// The state of a provider and model after a request is asked for: one more is under way, unless
/// requests have to wait.
pub open spec fn after_asking(s: GovernorState, now_ms: u64) -> GovernorState {
    if s.throttled_until_ms > now_ms {
        s
    } else {
        GovernorState { inflight_count: governor::one_more(s.inflight_count), ..s }
    }
}

/// Asks whether a request may be sent. Says until when it has to wait.
pub fn acquire_governor_permit(governors: &mut TextMap<GovernorState>, key: &str, now_ms: u64) -> (r:
    Option<u64>)
    ensures
        final(governors)@ == old(governors)@.insert(
            key@,
            after_asking(state_of(old(governors)@, key@), now_ms),
        ),
        r == (if state_of(old(governors)@, key@).throttled_until_ms > now_ms {
            Some(state_of(old(governors)@, key@).throttled_until_ms)
        } else {
            None
        }),
{
    let mut state = read_state(governors, key);
    let wait: Option<u64> = if state.throttled_until_ms > now_ms {
        Some(state.throttled_until_ms)
    } else {
        state.inflight_count = state.inflight_count.saturating_add(1);
        None
    };
    governors.insert(key.to_owned(), state);
    wait
}

/// The states after a request of a provider and model is no longer under way.
pub open spec fn after_release(governors: Map<Seq<char>, GovernorState>, key: Seq<char>) -> Map<
    Seq<char>,
    GovernorState,
> {
    if governors.dom().contains(key) {
        governors.insert(
            key,
            GovernorState {
                inflight_count: governor::one_less(governors[key].inflight_count),
                ..governors[key]
            },
        )
    } else {
        governors
    }
}

/// Takes note that a request is no longer under way.
pub fn governor_release_permit(governors: &mut TextMap<GovernorState>, key: &str)
    ensures
        final(governors)@ == after_release(old(governors)@, key@),
{
    if governors.contains_key(key) {
        let mut state = read_state(governors, key);
        state.inflight_count = state.inflight_count.saturating_sub(1);
        governors.insert(key.to_owned(), state);
    }
}

/// Takes note that a request was refused for its rate. Says until when requests have to wait.
pub fn governor_mark_rate_limited(
    governors: &mut TextMap<GovernorState>,
    key: &str,
    now_ms: u64,
) -> (r: u64)
    ensures
        final(governors)@ == old(governors)@.insert(
            key@,
            governor::after_rate_limit(state_of(old(governors)@, key@), now_ms),
        ),
        r == governor::after_rate_limit(
            state_of(old(governors)@, key@),
            now_ms,
        ).throttled_until_ms,
{
    let mut state = read_state(governors, key);
    let until: u64 = governor_apply_rate_limit(&mut state, now_ms);
    governors.insert(key.to_owned(), state);
    until
}

/// Takes note that a request was taken.
pub fn governor_mark_success(governors: &mut TextMap<GovernorState>, key: &str, now_ms: u64)
    ensures
        final(governors)@ == (if old(governors)@.dom().contains(key@) {
            old(governors)@.insert(
                key@,
                governor::after_success(old(governors)@[key@], now_ms),
            )
        } else {
            old(governors)@
        }),
{
    if governors.contains_key(key) {
        let mut state = read_state(governors, key);
        governor_apply_success(&mut state, now_ms);
        governors.insert(key.to_owned(), state);
    }
}

/// Takes note that an agent's request is no longer under way, where it was.
pub fn release_governor_inflight(agent: &mut AgentRecord, governors: &mut TextMap<GovernorState>)
    ensures
        final(agent)@ == (agent::AgentView { governor_inflight: false, ..old(agent)@ }),
        final(governors)@ == (match old(agent)@.governor_key {
            Some(key) => if old(agent)@.governor_inflight {
                after_release(old(governors)@, key)
            } else {
                old(governors)@
            },
            None => old(governors)@,
        }),
{
    if agent.governor_inflight {
        agent.governor_inflight = false;
        if let Some(key) = &agent.governor_key {
            governor_release_permit(governors, key.as_str());
        }
    }
}

/// How long the reason may be for which an agent has to wait.
pub const THROTTLE_REASON_MAX: usize = 240;

/// An agent that has to wait.
pub open spec fn after_throttle(
    a: agent::AgentView,
    retry_at_ms: u64,
    reason: Seq<char>,
    ts: u64,
) -> agent::AgentView {
    agent::AgentView {
        status: constants::AGENT_STATUS_THROTTLED@,
        throttled: true,
        retry_at_ms: Some(retry_at_ms),
        throttle_reason: Some(json_search::shortened(reason, THROTTLE_REASON_MAX)),
        active_turn_id: None,
        governor_inflight: false,
        updated_at: ts,
        ..a
    }
}

/// Takes note that an agent has to wait. Gives what is told of it.
pub fn mark_agent_throttled(agent: &mut AgentRecord, retry_at_ms: u64, reason: &str, ts: u64) -> (r:
    AgentProgressEnvelope)
    ensures
        final(agent)@ == after_throttle(old(agent)@, retry_at_ms, reason@, ts),
        r@ == agent_events::state_progress(final(agent)@, "throttle/wait"@, ts, false),
{
    agent.status = constants::AGENT_STATUS_THROTTLED.to_owned();
    agent.throttled = true;
    agent.retry_at_ms = Some(retry_at_ms);
    agent.throttle_reason = Some(truncate_text(reason, THROTTLE_REASON_MAX));
    agent.active_turn_id = None;
    agent.governor_inflight = false;
    agent.updated_at = ts;
    progress_throttle_state(agent, "throttle/wait", ts)
}

/// An agent that has to wait, with the report of why.
pub open spec fn after_rate_limit(
    a: agent::AgentView,
    retry_at_ms: u64,
    reason: Seq<char>,
    details: Option<Seq<char>>,
    ts: u64,
) -> agent::AgentView {
    agent::AgentView {
        failure_report: Some(
            failure::next_report(
                a.failure_report,
                FailureClass::RateLimit,
                "provider rate limit"@,
                details,
                true,
                ts,
            ),
        ),
        ..after_throttle(a, retry_at_ms, reason, ts)
    }
}

/// What is done to start a turn.
#[derive(Debug)]
pub enum TurnStep {
    /// Nothing: the agent is paused.
    Paused,
    /// Nothing yet: it is tried again at a time.
    Wait { retry_at_ms: u64, progress: AgentProgressEnvelope },
    /// The prompt is sent to the thread.
    Send { thread_id: String },
}

/// The key of the provider and model of an agent that is governed.
pub open spec fn governed(a: agent::AgentView) -> Option<Seq<char>> {
    if a.role == AgentRole::Worker {
        a.governor_key
    } else {
        None
    }
}

/// Why an agent is paused.
pub open spec fn pause_of(a: agent::AgentView) -> Option<Seq<char>> {
    if a.role == AgentRole::Worker {
        a.budget.paused_reason
    } else {
        None
    }
}

/// Until when the requests of an agent have to wait.
pub open spec fn wait_of(
    a: agent::AgentView,
    governors: Map<Seq<char>, GovernorState>,
    now_ms: u64,
) -> Option<u64> {
    match governed(a) {
        Some(key) => if state_of(governors, key).throttled_until_ms > now_ms {
            Some(state_of(governors, key).throttled_until_ms)
        } else {
            None
        },
        None => None,
    }
}

/// An agent before a turn.
pub open spec fn before_turn(
    a: agent::AgentView,
    governors: Map<Seq<char>, GovernorState>,
    now_ms: u64,
    ts: u64,
) -> agent::AgentView {
    match pause_of(a) {
        Some(reason) => agent::AgentView {
            status: constants::AGENT_STATUS_PAUSED@,
            error: Some(reason),
            updated_at: ts,
            ..a
        },
        None => match wait_of(a, governors, now_ms) {
            Some(until) => after_rate_limit(
                a,
                until,
                "provider rate limit"@,
                Some(json_search::shortened("provider rate limit"@, THROTTLE_REASON_MAX)),
                ts,
            ),
            None => a,
        },
    }
}

/// Starts to start a turn: not while the agent is paused, and not while its provider and model
/// have to wait.
pub fn start_agent_turn(
    agent: &mut AgentRecord,
    governors: &mut TextMap<GovernorState>,
    now_ms: u64,
    ts: u64,
) -> (r: TurnStep)
    ensures
        final(agent)@ == before_turn(old(agent)@, old(governors)@, now_ms, ts),
        final(governors)@ == (match governed(old(agent)@) {
            Some(key) => if pause_of(old(agent)@) is Some {
                old(governors)@
            } else {
                old(governors)@.insert(
                    key,
                    after_asking(state_of(old(governors)@, key), now_ms),
                )
            },
            None => old(governors)@,
        }),
        match r {
            TurnStep::Paused => pause_of(old(agent)@) is Some,
            TurnStep::Wait { retry_at_ms, progress } => {
                &&& pause_of(old(agent)@) is None
                &&& wait_of(old(agent)@, old(governors)@, now_ms) == Some(retry_at_ms)
                &&& progress@ == agent_events::state_progress(
                    after_throttle(old(agent)@, retry_at_ms, "provider rate limit"@, ts),
                    "throttle/wait"@,
                    ts,
                    false,
                )
            },
            TurnStep::Send { thread_id } => {
                &&& pause_of(old(agent)@) is None
                &&& wait_of(old(agent)@, old(governors)@, now_ms) is None
                &&& thread_id@ == old(agent)@.thread_id
            },
        },
{
    if agent.role == AgentRole::Worker {
        let paused = agent.budget.paused_reason.clone();
        if let Some(reason) = paused {
            agent.status = constants::AGENT_STATUS_PAUSED.to_owned();
            agent.error = Some(reason);
            agent.updated_at = ts;
            return TurnStep::Paused;
        }
        let governed_key = agent.governor_key.clone();
        if let Some(key) = governed_key {
            if let Some(retry_at_ms) = acquire_governor_permit(governors, key.as_str(), now_ms) {
                let progress = mark_agent_throttled(agent, retry_at_ms, "provider rate limit", ts);
                let details = agent.throttle_reason.clone();
                update_failure_report(
                    &mut agent.failure_report,
                    FailureClass::RateLimit,
                    "provider rate limit".to_owned(),
                    details,
                    true,
                    ts,
                );
                return TurnStep::Wait { retry_at_ms, progress };
            }
        }
    }
    TurnStep::Send { thread_id: agent.thread_id.clone() }
}

/// What came of sending a prompt.
#[derive(Debug)]
pub enum TurnOutcome {
    /// The turn has started.
    Started { turn_id: String },
    /// It is tried again at a time.
    Wait { retry_at_ms: u64, progress: AgentProgressEnvelope },
    /// It failed.
    Failed,
}

/// An agent whose turn has started.
pub open spec fn after_start(a: agent::AgentView, turn: Seq<char>, ts: u64) -> agent::AgentView {
    agent::AgentView {
        active_turn_id: Some(turn),
        status: constants::AGENT_STATUS_RUNNING@,
        throttled: false,
        retry_at_ms: None,
        throttle_reason: None,
        governor_inflight: a.governor_inflight || governed(a) is Some,
        updated_at: ts,
        ..a
    }
}

/// Until when the requests of an agent have to wait after an error that tells of its rate.
pub open spec fn until_after(
    a: agent::AgentView,
    governors: Map<Seq<char>, GovernorState>,
    error: Seq<char>,
    now_ms: u64,
) -> Option<u64> {
    match governed(a) {
        Some(key) => if governor::tells_of_rate_limit(error) {
            Some(
                governor::after_rate_limit(state_of(governors, key), now_ms).throttled_until_ms,
            )
        } else {
            None
        },
        None => None,
    }
}

/// Takes note of what came of sending a prompt. A refusal for the rate is no failure: the
/// provider and model are given time, and the agent waits.
pub fn finish_agent_turn(
    agent: &mut AgentRecord,
    governors: &mut TextMap<GovernorState>,
    outcome: Result<String, String>,
    now_ms: u64,
    ts: u64,
) -> (r: TurnOutcome)
    ensures
        match outcome {
            Ok(turn) => {
                &&& final(agent)@ == after_start(old(agent)@, turn@, ts)
                &&& final(governors)@ == (match governed(old(agent)@) {
                    Some(key) => if old(governors)@.dom().contains(key) {
                        old(governors)@.insert(
                            key,
                            governor::after_success(old(governors)@[key], now_ms),
                        )
                    } else {
                        old(governors)@
                    },
                    None => old(governors)@,
                })
                &&& r matches TurnOutcome::Started { turn_id } && turn_id@ == turn@
            },
            Err(error) => match until_after(old(agent)@, old(governors)@, error@, now_ms) {
                Some(until) => {
                    &&& final(agent)@ == after_rate_limit(
                        old(agent)@,
                        until,
                        error@,
                        Some(error@),
                        ts,
                    )
                    &&& final(governors)@ == old(governors)@.insert(
                        old(agent)@.governor_key->0,
                        governor::after_rate_limit(
                            state_of(old(governors)@, old(agent)@.governor_key->0),
                            now_ms,
                        ),
                    )
                    &&& r matches TurnOutcome::Wait { retry_at_ms, progress } && retry_at_ms == until
                        && progress@ == agent_events::state_progress(
                        after_throttle(old(agent)@, until, error@, ts),
                        "throttle/wait"@,
                        ts,
                        false,
                    )
                },
                None => {
                    &&& final(agent)@ == old(agent)@
                    &&& final(governors)@ == (match governed(old(agent)@) {
                        Some(key) => after_release(old(governors)@, key),
                        None => old(governors)@,
                    })
                    &&& r is Failed
                },
            },
        },
{
    let key: Option<String> = if agent.role == AgentRole::Worker {
        agent.governor_key.clone()
    } else {
        None
    };
    match outcome {
        Ok(turn) => {
            agent.active_turn_id = Some(turn.clone());
            agent.status = constants::AGENT_STATUS_RUNNING.to_owned();
            agent.throttled = false;
            agent.retry_at_ms = None;
            agent.throttle_reason = None;
            if key.is_some() {
                agent.governor_inflight = true;
            }
            agent.updated_at = ts;
            if let Some(key) = key {
                governor_mark_success(governors, key.as_str(), now_ms);
            }
            TurnOutcome::Started { turn_id: turn }
        },
        Err(error) => {
            if let Some(key) = key {
                if is_rate_limit_error(error.as_str()) {
                    let retry_at_ms: u64 = governor_mark_rate_limited(
                        governors,
                        key.as_str(),
                        now_ms,
                    );
                    let progress = mark_agent_throttled(agent, retry_at_ms, error.as_str(), ts);
                    update_failure_report(
                        &mut agent.failure_report,
                        FailureClass::RateLimit,
                        "provider rate limit".to_owned(),
                        Some(error),
                        true,
                        ts,
                    );
                    return TurnOutcome::Wait { retry_at_ms, progress };
                }
                governor_release_permit(governors, key.as_str());
            }
            TurnOutcome::Failed
        },
    }
}

/// What an agent that had to wait is sent once more, where it still waits.
pub open spec fn prompt_to_retry(a: agent::AgentView) -> Option<Seq<char>> {
    if a.throttled && a.active_turn_id is None && (a.prompt matches Some(p) && !text::is_blank(p)) {
        a.prompt
    } else {
        None
    }
}

/// What an agent that had to wait is sent once more, where it still waits.
pub fn retry_throttled_agent_turn(agent: &AgentRecord) -> (r: Option<String>)
    ensures
        text::opt_text(r) == prompt_to_retry(agent@),
{
    if !agent.throttled || agent.active_turn_id.is_some() {
        return None;
    }
    match &agent.prompt {
        Some(p) => if trims_to_empty(p.as_str()) {
            None
        } else {
            Some(p.clone())
        },
        None => None,
    }
}

/// Whether a request holds a prompt.
pub open spec fn has_prompt(input: SendAgentInput) -> bool {
    input.prompt matches Some(p) && !text::is_blank(p@)
}

/// Whether an agent that is asked for starts with a turn.
pub fn starts_turn(request: &SpawnAgentRequest) -> (r: bool)
    ensures
        r == !text::is_blank(request.prompt@),
{
    !trims_to_empty(request.prompt.as_str())
}

/// Asks for an agent in a directory, and for no callback.
pub fn plain_request(
    prompt: String,
    model: Option<String>,
    model_provider: Option<String>,
    cwd: String,
    sandbox: Option<String>,
) -> (r: SpawnAgentRequest)
    ensures
        r == (SpawnAgentRequest {
            prompt,
            model,
            model_provider,
            cwd: Some(cwd),
            sandbox,
            callback_profile: None,
            callback_prompt_prefix: None,
            callback_args: None,
            callback_vars: None,
            callback_events: None,
        }),
{
    SpawnAgentRequest {
        prompt,
        model,
        model_provider,
        cwd: Some(cwd),
        sandbox,
        callback_profile: None,
        callback_prompt_prefix: None,
        callback_args: None,
        callback_vars: None,
        callback_events: None,
    }
}

/// Asks for a turn, and for nothing else.
pub fn prompt_input(prompt: String) -> (r: SendAgentInput)
    ensures
        r.prompt == Some(prompt),
        !resolve::changes_callback(r),
{
    SendAgentInput {
        prompt: Some(prompt),
        callback_profile: None,
        callback_prompt_prefix: None,
        callback_args: None,
        callback_vars: None,
        callback_events: None,
    }
}

/// Whether a request holds a prompt.
pub fn has_turn_prompt(input: &SendAgentInput) -> (r: bool)
    ensures
        r == has_prompt(*input),
{
    match &input.prompt {
        Some(p) => !trims_to_empty(p.as_str()),
        None => false,
    }
}

/// What is wrong with a request: it holds neither a prompt nor another callback.
pub fn check_send(input: &SendAgentInput) -> (r: Result<(), ForemanError>)
    ensures
        if has_prompt(*input) || resolve::changes_callback(*input) {
            r is Ok
        } else {
            r matches Err(e) && e@ == seq![
                "send requires either a non-empty prompt or at least one callback override"@,
            ]
        },
{
    if !has_turn_prompt(input) && !has_callback_update_fields(input) {
        return Err(
            ForemanError::from_text(
                "send requires either a non-empty prompt or at least one callback override",
            ),
        );
    }
    Ok(())
}

/// Gives an agent the callback that a request asks for.
pub fn update_callback(
    agent: &mut AgentRecord,
    config: &ServiceConfig,
    input: &SendAgentInput,
    env: &EnvVars,
    ts: u64,
) -> (r: Result<(), ForemanError>)
    ensures
        if !resolve::changes_callback(*input) {
            r is Ok && final(agent)@ == old(agent)@
        } else {
            match resolve::send_resolved(*config, *input, old(agent)@.callback, env@) {
                Ok(c) => r is Ok && final(agent)@ == (agent::AgentView {
                    callback: c,
                    updated_at: ts,
                    ..old(agent)@
                }),
                Err(chain) => {
                    &&& r matches Err(e) && e@ == seq!["failed to configure callback update"@]
                        + chain
                    &&& final(agent)@ == old(agent)@
                },
            }
        },
{
    if !has_callback_update_fields(input) {
        return Ok(());
    }
    match resolve_callback_for_send(config, input, &agent.callback, env) {
        Ok(callback) => {
            agent.callback = callback;
            agent.updated_at = ts;
            Ok(())
        },
        Err(e) => Err(e.context("failed to configure callback update".to_owned())),
    }
}

/// An agent after a request, and the turn that came of it.
pub open spec fn after_send(
    a: agent::AgentView,
    input: SendAgentInput,
    turn: Option<Seq<char>>,
    ts: u64,
) -> agent::AgentView {
    let b = agent::AgentView {
        prompt: if has_prompt(input) {
            text::opt_text(input.prompt)
        } else {
            a.prompt
        },
        restart_attempts: if has_prompt(input) {
            0
        } else {
            a.restart_attempts
        },
        updated_at: ts,
        ..a
    };
    match turn {
        Some(t) => agent::AgentView {
            active_turn_id: Some(t),
            status: constants::AGENT_STATUS_RUNNING@,
            ..b
        },
        None => b,
    }
}

/// Whether a response tells of an agent and a turn.
pub open spec fn tells_of(
    r: SpawnAgentResponse,
    a: agent::AgentView,
    turn: Option<Seq<char>>,
    status: Seq<char>,
) -> bool {
    &&& r.id == a.id
    &&& r.thread_id@ == a.thread_id
    &&& text::opt_text(r.turn_id) == turn
    &&& r.status@ == status
    &&& r.project_id == a.project_id
    &&& r.role@ == agent::role_name(a.role)
    &&& r.foreman_id == a.foreman_id
}

/// Tells of an agent and a turn.
pub fn respond(agent: &AgentRecord, turn_id: Option<String>, status: String) -> (r: SpawnAgentResponse)
    ensures
        tells_of(r, agent@, text::opt_text(turn_id), status@),
{
    SpawnAgentResponse {
        id: agent.id,
        thread_id: agent.thread_id.clone(),
        turn_id,
        status,
        project_id: agent.project_id,
        role: agent.role.as_str().to_owned(),
        foreman_id: agent.foreman_id,
    }
}

/// Takes note of a request and of the turn that came of it.
pub fn send_turn(agent: &mut AgentRecord, input: &SendAgentInput, turn_id: Option<String>, ts: u64) -> (r:
    SpawnAgentResponse)
    ensures
        final(agent)@ == after_send(old(agent)@, *input, text::opt_text(turn_id), ts),
        tells_of(r, final(agent)@, text::opt_text(turn_id), final(agent)@.status),
{
    if has_turn_prompt(input) {
        agent.prompt = input.prompt.clone();
        agent.restart_attempts = 0;
    }
    agent.updated_at = ts;
    if let Some(turn) = &turn_id {
        agent.active_turn_id = Some(turn.clone());
        agent.status = constants::AGENT_STATUS_RUNNING.to_owned();
    }
    let status = agent.status.clone();
    respond(agent, turn_id, status)
}

/// How an agent tries again.
#[derive(Debug, Clone)]
pub struct RetryPlan {
    pub from_checkpoint: bool,
    pub prompt: String,
    pub checkpoint_available: bool,
}

/// Whether an agent takes up its work from a checkpoint.
pub open spec fn resumes(a: agent::AgentView, mode: Seq<char>) -> bool {
    mode == "checkpoint"@ && a.checkpoint.last_successful_turn_id is Some
}

/// What an agent is sent that tries again.
pub open spec fn retry_prompt(a: agent::AgentView, mode: Seq<char>) -> Seq<char> {
    if resumes(a, mode) {
        "Resume from checkpoint. Last successful turn id: "@ + a.checkpoint.last_successful_turn_id->0
            + ". Continue from current branch/worktree and finish pending work."@
    } else {
        match a.prompt {
            Some(p) => p,
            None => Seq::empty(),
        }
    }
}

/// What is wrong with another try.
pub open spec fn retry_problem(a: agent::AgentView, mode: Seq<char>) -> Option<Seq<char>> {
    if mode != "last-turn"@ && mode != "checkpoint"@ {
        Some("retry mode must be 'last-turn' or 'checkpoint'"@)
    } else if text::is_blank(retry_prompt(a, mode)) {
        Some("retry is unavailable because there is no prior prompt for this agent"@)
    } else {
        None
    }
}

/// How an agent tries again in a mode: from its last checkpoint where there is one and that is
/// asked for, else with its last prompt.
pub fn plan_retry(agent: &AgentRecord, mode: &str) -> (r: Result<RetryPlan, ForemanError>)
    ensures
        match retry_problem(agent@, mode@) {
            Some(message) => r matches Err(e) && e@ == seq![message],
            None => r matches Ok(p) && p.from_checkpoint == resumes(agent@, mode@) && p.prompt@
                == retry_prompt(agent@, mode@) && p.checkpoint_available == (
            agent@.checkpoint.last_successful_turn_id is Some),
        },
{
    let wants_checkpoint = same_text(mode, "checkpoint");
    if !same_text(mode, "last-turn") && !wants_checkpoint {
        return Err(ForemanError::from_text("retry mode must be 'last-turn' or 'checkpoint'"));
    }
    let checkpoint_available = agent.checkpoint.last_successful_turn_id.is_some();
    let from_checkpoint = wants_checkpoint && checkpoint_available;
    let last = match &agent.prompt {
        Some(p) => p.clone(),
        None => String::new(),
    };
    let prompt = if from_checkpoint {
        let mut p = "Resume from checkpoint. Last successful turn id: ".to_owned();
        if let Some(turn) = &agent.checkpoint.last_successful_turn_id {
            p.append(turn.as_str());
        }
        p.append(". Continue from current branch/worktree and finish pending work.");
        p
    } else {
        last
    };
    if trims_to_empty(prompt.as_str()) {
        return Err(
            ForemanError::from_text(
                "retry is unavailable because there is no prior prompt for this agent",
            ),
        );
    }
    Ok(RetryPlan { from_checkpoint, prompt, checkpoint_available })
}

/// An agent that is about to try again.
pub open spec fn before_retry(a: agent::AgentView, mode: Seq<char>, ts: u64) -> agent::AgentView {
    let b = if resumes(a, mode) {
        agent::AgentView {
            worktree_path: json::either(a.worktree_path, a.checkpoint.worktree_path),
            branch_name: json::either(a.branch_name, a.checkpoint.branch_name),
            validation_retries: a.checkpoint.validation_retries,
            last_validation_error: a.checkpoint.last_validation_error,
            ..a
        }
    } else {
        a
    };
    agent::AgentView {
        prompt: Some(retry_prompt(a, mode)),
        checkpoint: agent::CheckpointView {
            retry_count: governor::one_more(a.checkpoint.retry_count),
            ..a.checkpoint
        },
        updated_at: ts,
        ..b
    }
}

/// Prepares an agent for another try in a mode.
pub fn begin_retry(agent: &mut AgentRecord, mode: &str, ts: u64) -> (r: Result<
    RetryPlan,
    ForemanError,
>)
    ensures
        match retry_problem(old(agent)@, mode@) {
            Some(message) => {
                &&& r matches Err(e) && e@ == seq![message]
                &&& final(agent)@ == old(agent)@
            },
            None => {
                &&& r matches Ok(p) && p.from_checkpoint == resumes(old(agent)@, mode@) && p.prompt@
                    == retry_prompt(old(agent)@, mode@) && p.checkpoint_available == (old(
                    agent,
                )@.checkpoint.last_successful_turn_id is Some)
                &&& final(agent)@ == before_retry(old(agent)@, mode@, ts)
            },
        },
{
    let plan = match plan_retry(agent, mode) {
        Ok(plan) => plan,
        Err(e) => {
            return Err(e);
        },
    };
    agent.prompt = Some(plan.prompt.clone());
    if plan.from_checkpoint {
        if agent.worktree_path.is_none() {
            agent.worktree_path = agent.checkpoint.worktree_path.clone();
        }
        if agent.branch_name.is_none() {
            agent.branch_name = agent.checkpoint.branch_name.clone();
        }
        agent.validation_retries = agent.checkpoint.validation_retries;
        agent.last_validation_error = agent.checkpoint.last_validation_error.clone();
    }
    agent.checkpoint.retry_count = agent.checkpoint.retry_count.saturating_add(1);
    agent.updated_at = ts;
    Ok(plan)
}

/// An agent that has tried again.
pub open spec fn after_retry(a: agent::AgentView, turn: Option<Seq<char>>, ts: u64) -> agent::AgentView {
    agent::AgentView {
        active_turn_id: turn,
        status: if turn is Some {
            constants::AGENT_STATUS_RUNNING@
        } else {
            a.status
        },
        updated_at: ts,
        ..a
    }
}

/// The mode in which an agent tries again.
pub open spec fn mode_of(plan: RetryPlan) -> Seq<char> {
    if plan.from_checkpoint {
        "checkpoint"@
    } else {
        "last-turn"@
    }
}

/// Tells how an agent tries again, and of the turn that came of it.
pub fn retry_response(agent_id: u128, plan: &RetryPlan, turn_id: Option<String>) -> (r:
    RetryAgentResponse)
    ensures
        r.agent_id == agent_id,
        r.selected_mode@ == mode_of(*plan),
        r.restarted_turn_id == turn_id,
        r.checkpoint_available == plan.checkpoint_available,
{
    let selected_mode = if plan.from_checkpoint {
        "checkpoint".to_owned()
    } else {
        "last-turn".to_owned()
    };
    RetryAgentResponse {
        agent_id,
        selected_mode,
        restarted_turn_id: turn_id,
        checkpoint_available: plan.checkpoint_available,
    }
}

/// Takes note of the turn that came of another try.
pub fn finish_retry(agent: &mut AgentRecord, turn_id: &Option<String>, ts: u64)
    ensures
        final(agent)@ == after_retry(old(agent)@, text::opt_text(*turn_id), ts),
{
    agent.active_turn_id = turn_id.clone();
    if turn_id.is_some() {
        agent.status = constants::AGENT_STATUS_RUNNING.to_owned();
    }
    agent.updated_at = ts;
}

/// The turn that is told something.
pub fn steer_target(agent: &AgentRecord) -> (r: Result<String, ForemanError>)
    ensures
        match agent@.active_turn_id {
            Some(t) => r matches Ok(s) && s@ == t,
            None => r matches Err(e) && e@ == seq!["no active turn to steer"@],
        },
{
    match &agent.active_turn_id {
        Some(turn) => Ok(turn.clone()),
        None => Err(ForemanError::from_text("no active turn to steer")),
    }
}

/// Takes note of a turn that was told something.
pub fn steer(agent: &mut AgentRecord, turn_id: String, ts: u64) -> (r: SpawnAgentResponse)
    ensures
        final(agent)@ == (agent::AgentView {
            status: constants::AGENT_STATUS_RUNNING@,
            active_turn_id: Some(turn_id@),
            updated_at: ts,
            ..old(agent)@
        }),
        tells_of(r, final(agent)@, Some(turn_id@), constants::AGENT_STATUS_RUNNING@),
{
    agent.status = constants::AGENT_STATUS_RUNNING.to_owned();
    agent.updated_at = ts;
    agent.active_turn_id = Some(turn_id.clone());
    respond(agent, Some(turn_id), constants::AGENT_STATUS_RUNNING.to_owned())
}

/// The turn that is stopped: the one that is named, else the one that runs.
pub fn interrupt_target(agent: &AgentRecord, named: Option<String>) -> (r: Result<String, ForemanError>)
    ensures
        match json::either(text::opt_text(named), agent@.active_turn_id) {
            Some(t) => r matches Ok(s) && s@ == t,
            None => r matches Err(e) && e@ == seq!["no active turn to interrupt"@],
        },
{
    match named {
        Some(turn) => Ok(turn),
        None => match &agent.active_turn_id {
            Some(turn) => Ok(turn.clone()),
            None => Err(ForemanError::from_text("no active turn to interrupt")),
        },
    }
}

/// Takes note of a turn that was stopped.
pub fn interrupt(agent: &mut AgentRecord, ts: u64)
    ensures
        final(agent)@ == (agent::AgentView {
            status: constants::AGENT_STATUS_INTERRUPTED@,
            updated_at: ts,
            ..old(agent)@
        }),
{
    agent.status = constants::AGENT_STATUS_INTERRUPTED.to_owned();
    agent.updated_at = ts;
}

/// What follows from a budget that is used up.
#[derive(Debug)]
pub struct BudgetStep {
    pub progress: AgentProgressEnvelope,
    /// The thread and the turn that are stopped.
    pub interrupt: Option<(String, String)>,
}

/// A worker whose time is counted up to now.
pub open spec fn counted_to(a: agent::AgentView, now_ms: u64) -> agent::AgentView {
    agent::AgentView {
        budget: agent::BudgetView {
            elapsed_ms: if now_ms >= a.budget.started_at_ms {
                (now_ms - a.budget.started_at_ms) as u64
            } else {
                0
            },
            ..a.budget
        },
        ..a
    }
}

/// Why a worker's budget is used up, where that is not known yet.
pub open spec fn new_excess(
    a: agent::AgentView,
    defaults: BudgetDefaultsConfig,
    cost: CostCheck,
    now_ms: u64,
) -> Option<Seq<char>> {
    match budget::exceeded_reason(
        counted_to(a, now_ms).budget,
        defaults.max_tokens,
        cost,
        defaults.max_duration_ms,
    ) {
        Some(reason) => if a.budget.exceeded && a.budget.exceeded_reason == Some(reason) {
            None
        } else {
            Some(reason)
        },
        None => None,
    }
}

/// An agent after a look at its budget.
pub open spec fn after_budget_check(
    a: agent::AgentView,
    defaults: BudgetDefaultsConfig,
    cost: CostCheck,
    now_ms: u64,
    ts: u64,
) -> agent::AgentView {
    if a.role != AgentRole::Worker {
        a
    } else {
        let b = counted_to(a, now_ms);
        match new_excess(a, defaults, cost, now_ms) {
            Some(reason) => agent::AgentView {
                updated_at: ts,
                ..budget::after_exceeding(
                    agent::AgentView {
                        budget: agent::BudgetView {
                            exceeded: true,
                            exceeded_reason: Some(reason),
                            ..b.budget
                        },
                        ..b
                    },
                    defaults.on_exceed,
                    reason,
                    ts,
                )
            },
            None => b,
        }
    }
}

/// Looks at the budget of an agent. A worker whose budget is used up is treated as configured,
/// once for each reason.
pub fn apply_budget_policy(
    agent: &mut AgentRecord,
    defaults: &BudgetDefaultsConfig,
    cost: &CostCheck,
    event_name: &str,
    now_ms: u64,
    ts: u64,
) -> (r: Option<BudgetStep>)
    ensures
        final(agent)@ == after_budget_check(old(agent)@, *defaults, *cost, now_ms, ts),
        r is Some == (old(agent)@.role == AgentRole::Worker && new_excess(
            old(agent)@,
            *defaults,
            *cost,
            now_ms,
        ) is Some),
        r matches Some(s) ==> {
            &&& s.progress@ == agent_events::state_progress(
                final(agent)@,
                event_name@,
                ts,
                false,
            )
            &&& s.interrupt is Some == (defaults.on_exceed is Kill && old(
                agent,
            )@.active_turn_id is Some)
            &&& s.interrupt matches Some(p) ==> p.0@ == old(agent)@.thread_id && Some(p.1@) == old(
                agent,
            )@.active_turn_id
        },
{
    if agent.role != AgentRole::Worker {
        return None;
    }
    agent.budget.elapsed_ms = now_ms.saturating_sub(agent.budget.started_at_ms);
    let evaluation = evaluate_budget(
        &agent.budget,
        defaults.max_tokens,
        cost,
        defaults.max_duration_ms,
    );
    let reason = match evaluation.reason {
        Some(reason) => reason,
        None => {
            return None;
        },
    };
    if agent.budget.exceeded {
        if let Some(known) = &agent.budget.exceeded_reason {
            if same_text(known.as_str(), reason.as_str()) {
                return None;
            }
        }
    }
    agent.budget.exceeded = true;
    agent.budget.exceeded_reason = Some(reason.clone());
    let interrupt = apply_budget_transition(agent, &defaults.on_exceed, reason.as_str(), ts);
    agent.updated_at = ts;
    let progress = progress_budget_state(agent, event_name, ts);
    Some(BudgetStep { progress, interrupt })
}

/// A new agent.
pub open spec fn fresh_agent(
    id: u128,
    thread_id: Seq<char>,
    request: SpawnAgentRequest,
    role: AgentRole,
    project_id: Option<u128>,
    foreman_id: Option<u128>,
    job_id: Option<u128>,
    callback: agent::CallbackView,
    now_ms: u64,
    ts: u64,
) -> agent::AgentView {
    agent::AgentView {
        id,
        thread_id,
        active_turn_id: None,
        prompt: if text::is_blank(request.prompt@) {
            None
        } else {
            Some(request.prompt@)
        },
        cwd: text::opt_text(request.cwd),
        restart_attempts: 0,
        turns_completed: 0,
        validation_retries: 0,
        last_validation_error: None,
        worktree_path: None,
        branch_name: None,
        model: text::opt_text(request.model),
        model_provider: text::opt_text(request.model_provider),
        governor_key: governor::key_of(
            text::opt_text(request.model_provider),
            text::opt_text(request.model),
        ),
        governor_inflight: false,
        throttled: false,
        retry_at_ms: None,
        throttle_reason: None,
        failure_report: None,
        budget: agent::fresh_budget(now_ms),
        checkpoint: agent::no_checkpoint(),
        status: constants::AGENT_STATUS_IDLE@,
        callback,
        role,
        project_id,
        foreman_id,
        error: None,
        result: None,
        job_id,
        created_at: ts,
        updated_at: ts,
        events: Seq::empty(),
    }
}

/// A new agent on a thread.
pub fn spawn_agent_record(
    id: u128,
    thread_id: String,
    request: &SpawnAgentRequest,
    role: AgentRole,
    project_id: Option<u128>,
    foreman_id: Option<u128>,
    job_id: Option<u128>,
    callback: WorkerCallback,
    now_ms: u64,
    ts: u64,
) -> (r: AgentRecord)
    ensures
        r@ == fresh_agent(
            id,
            thread_id@,
            *request,
            role,
            project_id,
            foreman_id,
            job_id,
            callback@,
            now_ms,
            ts,
        ),
{
    let prompt = if trims_to_empty(request.prompt.as_str()) {
        None
    } else {
        Some(request.prompt.clone())
    };
    let r = AgentRecord {
        id,
        thread_id,
        active_turn_id: None,
        prompt,
        cwd: request.cwd.clone(),
        restart_attempts: 0,
        turns_completed: 0,
        validation_retries: 0,
        last_validation_error: None,
        worktree_path: None,
        branch_name: None,
        model: request.model.clone(),
        model_provider: request.model_provider.clone(),
        governor_key: governor_key(opt_ref(&request.model_provider), opt_ref(&request.model)),
        governor_inflight: false,
        throttled: false,
        retry_at_ms: None,
        throttle_reason: None,
        failure_report: None,
        budget: WorkerBudgetState::new(now_ms),
        checkpoint: WorkerCheckpoint::default(),
        status: constants::AGENT_STATUS_IDLE.to_owned(),
        callback,
        role,
        project_id,
        foreman_id,
        error: None,
        result: None,
        job_id,
        created_at: ts,
        updated_at: ts,
        events: Vec::new(),
    };
    assert(r@.events == Seq::<crate::models::EventView>::empty());
    r
}

/// A paused worker sends nothing, and neither does one whose provider and model have to wait.
pub proof fn law_nothing_is_sent_while_waiting(
    a: agent::AgentView,
    governors: Map<Seq<char>, GovernorState>,
    key: Seq<char>,
    now_ms: u64,
    ts: u64,
)
    requires
        a.role == AgentRole::Worker,
        a.governor_key == Some(key),
        a.budget.paused_reason is None,
        state_of(governors, key).throttled_until_ms > now_ms,
    ensures
        before_turn(a, governors, now_ms, ts).throttled,
        before_turn(a, governors, now_ms, ts).active_turn_id is None,
        before_turn(a, governors, now_ms, ts).retry_at_ms == Some(
            state_of(governors, key).throttled_until_ms,
        ),
{
}

/// What is taken for a request is given back when it is no longer under way: asking and giving
/// back leave the count as it was.
pub proof fn law_permits_are_given_back(
    governors: Map<Seq<char>, GovernorState>,
    key: Seq<char>,
    now_ms: u64,
)
    requires
        state_of(governors, key).throttled_until_ms <= now_ms,
        state_of(governors, key).inflight_count < u32::MAX,
    ensures
        state_of(
            after_release(
                governors.insert(key, after_asking(state_of(governors, key), now_ms)),
                key,
            ),
            key,
        ) == state_of(governors, key),
{
}

/// A budget that is used up is acted on once for each reason: another look at the same time
/// finds nothing new.
pub proof fn law_budget_is_acted_on_once(
    a: agent::AgentView,
    defaults: BudgetDefaultsConfig,
    cost: CostCheck,
    now_ms: u64,
    ts: u64,
)
    requires
        a.role == AgentRole::Worker,
    ensures
        new_excess(after_budget_check(a, defaults, cost, now_ms, ts), defaults, cost, now_ms)
            is None,
{
}

/// A request without a prompt changes an agent's callback only: taking note of it leaves the agent
/// its prompt, its status, its turn and its count of restarts.
pub proof fn law_callback_only_update_leaves_the_work_alone(
    a: agent::AgentView,
    input: SendAgentInput,
    ts: u64,
)
    requires
        !has_prompt(input),
    ensures
        after_send(a, input, None, ts) == (agent::AgentView { updated_at: ts, ..a }),
{
}

/// A look at the budget of a worker that has used up too much takes note of it: the budget says so,
/// and why. Agents that are no workers have no budget, and a worker within its budget is left alone
/// but for its time.
pub proof fn law_excess_is_noted(
    a: agent::AgentView,
    defaults: BudgetDefaultsConfig,
    cost: CostCheck,
    now_ms: u64,
    ts: u64,
)
    requires
        a.budget.prompt_tokens + a.budget.output_tokens + a.budget.cached_tokens <= u64::MAX,
    ensures
        ({
            let b = after_budget_check(a, defaults, cost, now_ms, ts);
            let elapsed = if now_ms >= a.budget.started_at_ms {
                now_ms - a.budget.started_at_ms
            } else {
                0
            };
            let tokens = a.budget.prompt_tokens + a.budget.output_tokens + a.budget.cached_tokens;
            let over = tokens > defaults.max_tokens || cost.exceeded || elapsed
                > defaults.max_duration_ms;
            &&& a.role != AgentRole::Worker ==> b == a
            &&& a.role == AgentRole::Worker ==> b.budget.elapsed_ms == elapsed
            &&& a.role == AgentRole::Worker && !over ==> b == (agent::AgentView {
                budget: agent::BudgetView { elapsed_ms: elapsed as u64, ..a.budget },
                ..a
            })
            &&& a.role == AgentRole::Worker && over ==> b.budget.exceeded
                && b.budget.exceeded_reason is Some
            &&& a.role == AgentRole::Worker && over && !a.budget.exceeded && defaults.on_exceed
                == BudgetOnExceed::Kill ==> b.status == "failed"@
            &&& a.role == AgentRole::Worker && over && !a.budget.exceeded && defaults.on_exceed
                == BudgetOnExceed::Pause ==> b.budget.paused_reason is Some
            &&& a.role == AgentRole::Worker && over && !a.budget.exceeded && defaults.on_exceed
                == BudgetOnExceed::Warn ==> b.status == a.status && b.budget.paused_reason
                == a.budget.paused_reason
            &&& b.budget.prompt_tokens == a.budget.prompt_tokens
            &&& b.budget.output_tokens == a.budget.output_tokens
        }),
{
    budget::law_budget_is_used_up_past_a_limit(
        counted_to(a, now_ms).budget,
        defaults.max_tokens,
        cost,
        defaults.max_duration_ms,
    );
}

/// Before a turn a worker that is paused stays so and says why; one whose provider and model have
/// to wait waits until they may go on, with a report of it; any other agent is as it was.
pub proof fn law_turns_are_held_only_with_cause(
    a: agent::AgentView,
    governors: Map<Seq<char>, GovernorState>,
    now_ms: u64,
    ts: u64,
)
    ensures
        ({
            let b = before_turn(a, governors, now_ms, ts);
            let waits = a.role == AgentRole::Worker && a.governor_key is Some
                && governors.dom().contains(a.governor_key->0)
                && governors[a.governor_key->0].throttled_until_ms > now_ms;
            let paused = a.role == AgentRole::Worker && a.budget.paused_reason is Some;
            &&& paused ==> b.status == "paused"@ && b.error == a.budget.paused_reason && !(
            !a.throttled && b.throttled)
            &&& !paused && !waits ==> b == a
            &&& !paused && waits ==> {
                &&& b.status == "throttled"@
                &&& b.throttled
                &&& b.active_turn_id is None
                &&& b.retry_at_ms == Some(governors[a.governor_key->0].throttled_until_ms)
                &&& b.failure_report is Some
                &&& b.failure_report->0.class == FailureClass::RateLimit
                &&& b.failure_report->0.retryable
                &&& b.prompt == a.prompt
            }
        }),
{
}

/// A turn that has started is the agent's, which runs and waits no more; the request counts for
/// its provider where it is governed.
pub proof fn law_started_turn_ends_the_wait(a: agent::AgentView, turn: Seq<char>, ts: u64)
    ensures
        ({
            let b = after_start(a, turn, ts);
            &&& b.status == "running"@
            &&& b.active_turn_id == Some(turn)
            &&& !b.throttled
            &&& b.retry_at_ms is None
            &&& b.throttle_reason is None
            &&& b.updated_at == ts
            &&& a.role == AgentRole::Worker && a.governor_key is Some ==> b.governor_inflight
            &&& a.governor_key is None ==> b.governor_inflight == a.governor_inflight
            &&& b.prompt == a.prompt
        }),
{
}

/// A turn that could not start waits exactly where the error tells of the rate of a governed
/// worker, and then no shorter than the backoff; any other error is final.
pub proof fn law_only_rate_limits_of_workers_wait(
    a: agent::AgentView,
    governors: Map<Seq<char>, GovernorState>,
    error: Seq<char>,
    now_ms: u64,
)
    requires
        now_ms <= u64::MAX - 2 * constants::GOVERNOR_BACKOFF_MAX_MS,
    ensures
        until_after(a, governors, error, now_ms) is Some <==> a.role == AgentRole::Worker
            && a.governor_key is Some && governor::tells_of_rate_limit(error),
        until_after(a, governors, error, now_ms) matches Some(until) ==> until > now_ms,
{
}

/// An agent that waits is sent its prompt once more exactly where it still waits, has no turn, and
/// has a prompt; it is sent that prompt and no other.
pub proof fn law_waiting_agents_get_their_own_prompt(a: agent::AgentView)
    ensures
        prompt_to_retry(a) is Some <==> a.throttled && a.active_turn_id is None && a.prompt is Some
            && !text::is_blank(a.prompt->0),
        prompt_to_retry(a) is Some ==> prompt_to_retry(a) == a.prompt,
{
}

/// A request with a prompt gives the agent the prompt and forgets its restarts; with a turn the
/// agent runs it.
pub proof fn law_requests_give_their_prompt(
    a: agent::AgentView,
    input: SendAgentInput,
    turn: Option<Seq<char>>,
    ts: u64,
)
    requires
        input.prompt is Some,
        !text::is_blank(input.prompt->0@),
    ensures
        after_send(a, input, turn, ts).prompt == Some(input.prompt->0@),
        after_send(a, input, turn, ts).restart_attempts == 0,
        after_send(a, input, turn, ts).updated_at == ts,
        turn is Some ==> after_send(a, input, turn, ts).status == "running"@ && after_send(
            a,
            input,
            turn,
            ts,
        ).active_turn_id == turn,
        turn is None ==> after_send(a, input, turn, ts).status == a.status && after_send(
            a,
            input,
            turn,
            ts,
        ).active_turn_id == a.active_turn_id,
        after_send(a, input, turn, ts).callback == a.callback,
{
}

/// An agent tries again from its checkpoint exactly where that is asked for and there is one, else
/// with its last prompt; a mode that there is not, and an agent with nothing to try, are refused.
pub proof fn law_retries_take_up_what_there_is(a: agent::AgentView, mode: Seq<char>, ts: u64)
    ensures
        mode != "last-turn"@ && mode != "checkpoint"@ ==> retry_problem(a, mode) is Some,
        mode == "last-turn"@ ==> (retry_problem(a, mode) is None <==> a.prompt is Some
            && !text::is_blank(a.prompt->0)),
        mode == "last-turn"@ && a.prompt is Some ==> retry_prompt(a, mode) == a.prompt->0,
        mode == "checkpoint"@ && a.checkpoint.last_successful_turn_id is None && a.prompt is Some
            ==> retry_prompt(a, mode) == a.prompt->0,
        mode == "checkpoint"@ && a.checkpoint.last_successful_turn_id is Some ==> text::has_text(
            retry_prompt(a, mode),
            a.checkpoint.last_successful_turn_id->0,
        ) && retry_problem(a, mode) is None,
        before_retry(a, mode, ts).prompt == Some(retry_prompt(a, mode)),
        a.checkpoint.retry_count < u32::MAX ==> before_retry(a, mode, ts).checkpoint.retry_count
            == a.checkpoint.retry_count + 1,
        mode == "checkpoint"@ && a.checkpoint.last_successful_turn_id is Some ==> {
            let b = before_retry(a, mode, ts);
            &&& b.validation_retries == a.checkpoint.validation_retries
            &&& b.last_validation_error == a.checkpoint.last_validation_error
            &&& a.worktree_path is Some ==> b.worktree_path == a.worktree_path
            &&& a.worktree_path is None ==> b.worktree_path == a.checkpoint.worktree_path
            &&& a.branch_name is Some ==> b.branch_name == a.branch_name
            &&& a.branch_name is None ==> b.branch_name == a.checkpoint.branch_name
        },
        mode == "last-turn"@ ==> before_retry(a, mode, ts).worktree_path == a.worktree_path
            && before_retry(a, mode, ts).validation_retries == a.validation_retries,
{
    reveal_strlit("last-turn");
    reveal_strlit("checkpoint");
    assert("last-turn"@.len() == 9 && "checkpoint"@.len() == 10);
    if mode == "checkpoint"@ && a.checkpoint.last_successful_turn_id is Some {
        let head = "Resume from checkpoint. Last successful turn id: "@;
        let id = a.checkpoint.last_successful_turn_id->0;
        let tail = ". Continue from current branch/worktree and finish pending work."@;
        let p = head + id + tail;
        assert(p.subrange(head.len() as int, (head.len() + id.len()) as int) == id);
        assert(text::occurs_at(p, id, head.len() as int));
        reveal_strlit("Resume from checkpoint. Last successful turn id: ");
        assert(p[0] == 'R');
        text::lemma_letter_is_not_blank(p);
    }
    if mode == "last-turn"@ && a.prompt is None {
        assert(text::is_blank(Seq::<char>::empty()));
    }
}

/// A new agent is idle, with what was asked for and nothing used up, done or failed yet.
pub proof fn law_new_agents_start_fresh(
    id: u128,
    thread_id: Seq<char>,
    request: SpawnAgentRequest,
    role: AgentRole,
    project_id: Option<u128>,
    foreman_id: Option<u128>,
    job_id: Option<u128>,
    callback: agent::CallbackView,
    now_ms: u64,
    ts: u64,
)
    ensures
        ({
            let a = fresh_agent(
                id,
                thread_id,
                request,
                role,
                project_id,
                foreman_id,
                job_id,
                callback,
                now_ms,
                ts,
            );
            &&& a.id == id && a.thread_id == thread_id && a.role == role
            &&& a.project_id == project_id && a.foreman_id == foreman_id && a.job_id == job_id
            &&& a.callback == callback
            &&& a.status == "idle"@
            &&& a.active_turn_id is None && a.result is None && a.error is None
            &&& a.failure_report is None && !a.throttled && !a.governor_inflight
            &&& a.turns_completed == 0 && a.restart_attempts == 0 && a.validation_retries == 0
            &&& a.events.len() == 0
            &&& a.created_at == ts && a.updated_at == ts
            &&& a.budget.prompt_tokens == 0 && a.budget.output_tokens == 0 && a.budget.cached_tokens
                == 0 && a.budget.elapsed_ms == 0 && a.budget.started_at_ms == now_ms
                && !a.budget.exceeded && a.budget.paused_reason is None
            &&& !text::is_blank(request.prompt@) ==> a.prompt == Some(request.prompt@)
            &&& text::is_blank(request.prompt@) ==> a.prompt is None
            &&& a.checkpoint.last_successful_turn_id is None
        }),
{
}

/// A request that is let through counts as under way until it is released; one that is held back
/// does not count, and nothing else of the state changes.
pub proof fn law_requests_under_way_are_counted(
    governors: Map<Seq<char>, GovernorState>,
    key: Seq<char>,
    s: GovernorState,
    now_ms: u64,
)
    requires
        s.inflight_count < u32::MAX,
    ensures
        s.throttled_until_ms > now_ms ==> after_asking(s, now_ms) == s,
        s.throttled_until_ms <= now_ms ==> after_asking(s, now_ms).inflight_count
            == s.inflight_count + 1 && after_asking(s, now_ms).throttled_until_ms
            == s.throttled_until_ms && after_asking(s, now_ms).backoff_ms == s.backoff_ms,
        s.throttled_until_ms <= now_ms ==> after_release(
            governors.insert(key, after_asking(s, now_ms)),
            key,
        )[key] == s,
        !governors.dom().contains(key) ==> after_release(governors, key) == governors,
        !governors.dom().contains(key) ==> state_of(governors, key).throttled_until_ms == 0
            && state_of(governors, key).inflight_count == 0 && state_of(governors, key).backoff_ms
            == 0,
        state_of(governors.insert(key, s), key) == s,
{
    let all = governors.insert(key, after_asking(s, now_ms));
    assert(all[key] == after_asking(s, now_ms));
}

/// An agent that has to wait has no turn and no request under way, and knows when and why; what it
/// was told stays.
pub proof fn law_waiting_agents_know_when(
    a: agent::AgentView,
    retry_at_ms: u64,
    reason: Seq<char>,
    ts: u64,
)
    ensures
        ({
            let b = after_throttle(a, retry_at_ms, reason, ts);
            &&& b.status == "throttled"@ && b.throttled
            &&& b.retry_at_ms == Some(retry_at_ms)
            &&& b.throttle_reason is Some
            &&& b.active_turn_id is None && !b.governor_inflight
            &&& b.prompt == a.prompt && b.result == a.result && b.updated_at == ts
            &&& json_search::byte_len(reason) <= THROTTLE_REASON_MAX ==> b.throttle_reason == Some(
                reason,
            )
        }),
        prompt_to_retry(after_throttle(a, retry_at_ms, reason, ts)) is Some <==> a.prompt is Some
            && !text::is_blank(a.prompt->0),
{
}

/// A plan to try again goes from the checkpoint or from the last turn, and says which.
pub proof fn law_plans_name_their_mode(plan: RetryPlan)
    ensures
        plan.from_checkpoint ==> mode_of(plan) == "checkpoint"@,
        !plan.from_checkpoint ==> mode_of(plan) == "last-turn"@,
{
}

} // verus!

//! What an event does to an agent, and what is passed on.
use vstd::prelude::*;

use crate::agent;
use crate::agent::{AgentRecord, AgentRole, WorkerCallback};
use crate::budget;
use crate::budget::{update_budget_counters, worker_budget_json};
use crate::constants;
use crate::extract;
use crate::extract::{
    completion_method_for_thread_status, either_text, extract_agent_result_text,
    extract_result_references, extract_result_summary, is_agent_item_completion_payload,
};
use crate::failure;
use crate::failure::{
    classify_failure_from_error, failure_class_retryable, failure_summary_for_class,
    update_failure_report,
};
use crate::governor;
use crate::job::clone_opt_result;
use crate::json;
use crate::json::{text_in, Json, JsonNumber};
use crate::json_search;
use crate::json_search::truncate_json_value;
use crate::models;
use crate::models::{
    AgentEventDto, AgentProgressEnvelope, AgentResult, FailureClass, ProgressThrottleState,
    ProgressValidationState,
};
use crate::protocol;
use crate::protocol::parse_turn_id;
use crate::text;
use crate::text::{same_text, trims_to_empty};
use crate::tools;
use crate::tools::{is_command_execution_item_completed, parse_tool_call_summary};

verus! {

/// An event on its way to an agent.
#[derive(Debug)]
pub struct IncomingEvent {
    pub method: String,
    pub params: Json,
    pub ts: u64,
    pub now_ms: u64,
    pub event_id: u128,
    /// The agent's cost, with what this event adds.
    pub cost: JsonNumber,
}

/// What an event on its way says.
pub struct IncomingView {
    pub method: Seq<char>,
    pub params: json::JsonView,
    pub ts: u64,
    pub now_ms: u64,
    pub event_id: u128,
    pub cost: json::NumberView,
}

impl View for IncomingEvent {
    type V = IncomingView;

    open spec fn view(&self) -> IncomingView {
        IncomingView {
            method: self.method@,
            params: self.params@,
            ts: self.ts,
            now_ms: self.now_ms,
            event_id: self.event_id,
            cost: self.cost@,
        }
    }
}

/// The events with one more; the oldest go where there is no room.
pub open spec fn buffered(
    events: Seq<models::EventView>,
    event: models::EventView,
) -> Seq<models::EventView> {
    let all = events.push(event);
    if all.len() > constants::EVENT_BUFFER_MAX {
        all.skip(all.len() - constants::EVENT_BUFFER_MAX)
    } else {
        all
    }
}

/// Adds an event to a buffer; the oldest go where there is no room.
pub fn buffer_event(events: &mut Vec<AgentEventDto>, event: AgentEventDto)
    ensures
        models::event_views(final(events)@) == buffered(models::event_views(old(events)@), event@),
        final(events)@.len() <= constants::EVENT_BUFFER_MAX,
{
    let ghost before = models::event_views(events@);
    events.push(event);
    let ghost all = models::event_views(events@);
    assert(all == before.push(event@));
    assert(all.skip(0) == all);
    let ghost mut gone: int = 0;
    while events.len() > constants::EVENT_BUFFER_MAX
        invariant
            0 <= gone,
            all.len() >= gone,
            models::event_views(events@) == all.skip(gone),
            gone > 0 ==> events@.len() >= constants::EVENT_BUFFER_MAX,
        decreases events@.len(),
    {
        let ghost now = events@;
        let oldest = events.remove(0);
        proof {
            gone = gone + 1;
            assert(models::event_views(events@) == models::event_views(now).skip(1));
            assert(all.skip(gone - 1).skip(1) == all.skip(gone));
        }
    }
    assert(models::event_views(events@).len() == events@.len());
}

/// The turn of an event: the one that it names, or else the agent's.
pub open spec fn event_turn(a: agent::AgentView, params: json::JsonView) -> Option<Seq<char>> {
    json::either(protocol::turn_of(params), a.active_turn_id)
}

/// The status of a result, by the event that ended the turn.
pub open spec fn end_status(method: Seq<char>) -> Seq<char> {
    if method == constants::EVENT_METHOD_TURN_ABORTED@ {
        constants::AGENT_STATUS_ABORTED@
    } else {
        constants::AGENT_STATUS_COMPLETED@
    }
}

/// The result of a turn that ended.
pub open spec fn completion_result(
    agent_id: u128,
    method: Seq<char>,
    turn_id: Option<Seq<char>>,
    params: json::JsonView,
    completed_at: u64,
    event_id: u128,
) -> models::ResultView {
    models::ResultView {
        agent_id,
        status: end_status(method),
        completion_method: Some(method),
        turn_id,
        final_text: extract::result_text(method, params),
        summary: extract::summary_of(params),
        references: extract::references_of(params),
        completed_at: Some(completed_at),
        event_id: Some(event_id),
        error: None,
    }
}

/// The result of a turn that ended.
pub fn build_completion_result(
    agent_id: u128,
    method: &str,
    turn_id: Option<String>,
    params: &Json,
    completed_at: u64,
    event_id: u128,
) -> (r: AgentResult)
    ensures
        r@ == completion_result(
            agent_id,
            method@,
            text::opt_text(turn_id),
            params@,
            completed_at,
            event_id,
        ),
{
    let status = if same_text(method, constants::EVENT_METHOD_TURN_ABORTED) {
        constants::AGENT_STATUS_ABORTED
    } else {
        constants::AGENT_STATUS_COMPLETED
    };
    AgentResult {
        agent_id,
        status: status.to_owned(),
        completion_method: Some(method.to_owned()),
        turn_id,
        final_text: extract_agent_result_text(method, params),
        summary: extract_result_summary(params),
        references: extract_result_references(params),
        completed_at: Some(completed_at),
        event_id: Some(event_id),
        error: None,
    }
}

/// A text with more behind it, unless that is blank.
pub open spec fn extended(t: Option<Seq<char>>, more: Option<Seq<char>>) -> Option<Seq<char>> {
    match more {
        Some(m) => if text::is_blank(m) {
            t
        } else {
            match t {
                Some(s) => Some(s + m),
                None => Some(m),
            }
        },
        None => t,
    }
}

/// A result to which a message adds: its text is put behind what is there; the time, the summary
/// and the references stay once they are known.
pub open spec fn extended_result(
    existing: Option<models::ResultView>,
    agent_id: u128,
    method: Seq<char>,
    turn_id: Option<Seq<char>>,
    params: json::JsonView,
    event_id: u128,
    completed_at: u64,
) -> models::ResultView {
    let base = match existing {
        Some(r) => r,
        None => models::ResultView {
            agent_id,
            status: end_status(method),
            completion_method: Some(method),
            turn_id,
            final_text: None,
            summary: None,
            references: None,
            completed_at: None,
            event_id: None,
            error: None,
        },
    };
    models::ResultView {
        turn_id: json::either(turn_id, base.turn_id),
        final_text: extended(base.final_text, extract::result_text(method, params)),
        completed_at: json::either(base.completed_at, Some(completed_at)),
        summary: json::either(base.summary, extract::summary_of(params)),
        references: json::either(base.references, extract::references_of(params)),
        event_id: Some(event_id),
        ..base
    }
}

/// A result to which a message adds.
pub fn update_agent_result_text(
    existing: Option<AgentResult>,
    agent_id: u128,
    method: &str,
    turn_id: Option<String>,
    params: &Json,
    event_id: u128,
    completed_at: u64,
) -> (r: AgentResult)
    ensures
        r@ == extended_result(
            models::opt_result(existing),
            agent_id,
            method@,
            text::opt_text(turn_id),
            params@,
            event_id,
            completed_at,
        ),
{
    let mut result = match existing {
        Some(r) => r,
        None => {
            let status = if same_text(method, constants::EVENT_METHOD_TURN_ABORTED) {
                constants::AGENT_STATUS_ABORTED
            } else {
                constants::AGENT_STATUS_COMPLETED
            };
            AgentResult {
                agent_id,
                status: status.to_owned(),
                completion_method: Some(method.to_owned()),
                turn_id: turn_id.clone(),
                final_text: None,
                summary: None,
                references: None,
                completed_at: None,
                event_id: None,
                error: None,
            }
        },
    };
    let known_turn = result.turn_id.take();
    result.turn_id = either_text(turn_id, known_turn);
    if let Some(more) = extract_agent_result_text(method, params) {
        if !trims_to_empty(more.as_str()) {
            let known = result.final_text.take();
            let merged = match known {
                Some(t) => {
                    let mut whole = t;
                    whole.append(more.as_str());
                    whole
                },
                None => more,
            };
            result.final_text = Some(merged);
        }
    }
    if result.completed_at.is_none() {
        result.completed_at = Some(completed_at);
    }
    if result.summary.is_none() {
        result.summary = extract_result_summary(params);
    }
    if result.references.is_none() {
        result.references = extract_result_references(params);
    }
    result.event_id = Some(event_id);
    result
}

/// The report after a turn that was broken off with an error.
pub open spec fn aborted_report(
    report: Option<models::FailureView>,
    error: Option<Seq<char>>,
    params: json::JsonView,
    ts: u64,
) -> models::FailureView {
    let class = failure::failure_class(error, Some(params));
    failure::next_report(
        report,
        class,
        failure::class_summary(class),
        error,
        failure::is_retryable(class),
        ts,
    )
}

/// Takes note of a turn that was broken off with an error.
fn report_abort(agent: &mut AgentRecord, error: Option<String>, params: &Json, ts: u64)
    ensures
        final(agent)@ == (agent::AgentView {
            failure_report: Some(
                aborted_report(
                    old(agent)@.failure_report,
                    text::opt_text(error),
                    params@,
                    ts,
                ),
            ),
            ..old(agent)@
        }),
{
    let class = match &error {
        Some(e) => classify_failure_from_error(Some(e.as_str()), Some(params)),
        None => classify_failure_from_error(None, Some(params)),
    };
    update_failure_report(
        &mut agent.failure_report,
        class,
        failure_summary_for_class(&class).to_owned(),
        error,
        failure_class_retryable(&class),
        ts,
    );
}

/// Whether an event ends a turn.
pub open spec fn ends_turn(method: Seq<char>) -> bool {
    method == constants::EVENT_METHOD_TURN_COMPLETED@ || method
        == constants::EVENT_METHOD_TURN_ABORTED@
}

/// An agent whose turn has ended: idle, no longer throttled, with a result; with a checkpoint
/// where the turn succeeded, and with a failure report where it was broken off.
pub open spec fn after_turn_end(a: agent::AgentView, e: IncomingView) -> agent::AgentView {
    let turn = event_turn(a, e.params);
    let completed = e.method == constants::EVENT_METHOD_TURN_COMPLETED@;
    let aborted = e.method == constants::EVENT_METHOD_TURN_ABORTED@;
    agent::AgentView {
        turns_completed: if completed {
            governor::one_more(a.turns_completed)
        } else {
            a.turns_completed
        },
        checkpoint: if completed {
            agent::CheckpointView {
                last_successful_turn_id: turn,
                worktree_path: a.worktree_path,
                branch_name: a.branch_name,
                validation_retries: a.validation_retries,
                last_validation_error: a.last_validation_error,
                retry_count: a.checkpoint.retry_count,
            }
        } else {
            a.checkpoint
        },
        status: constants::AGENT_STATUS_IDLE@,
        throttled: false,
        retry_at_ms: None,
        throttle_reason: None,
        result: Some(completion_result(a.id, e.method, turn, e.params, e.ts, e.event_id)),
        failure_report: if aborted {
            Some(
                aborted_report(
                    a.failure_report,
                    json::text_of(json::member(e.params, "error"@)),
                    e.params,
                    e.ts,
                ),
            )
        } else {
            a.failure_report
        },
        ..a
    }
}

fn end_turn(agent: &mut AgentRecord, event: &IncomingEvent)
    ensures
        final(agent)@ == after_turn_end(old(agent)@, event@),
{
    let turn = either_text(parse_turn_id(&event.params), agent.active_turn_id.clone());
    if same_text(event.method.as_str(), constants::EVENT_METHOD_TURN_COMPLETED) {
        agent.turns_completed = agent.turns_completed.saturating_add(1);
        agent.checkpoint.last_successful_turn_id = turn.clone();
        agent.checkpoint.worktree_path = agent.worktree_path.clone();
        agent.checkpoint.branch_name = agent.branch_name.clone();
        agent.checkpoint.validation_retries = agent.validation_retries;
        agent.checkpoint.last_validation_error = agent.last_validation_error.clone();
    }
    agent.status = constants::AGENT_STATUS_IDLE.to_owned();
    agent.throttled = false;
    agent.retry_at_ms = None;
    agent.throttle_reason = None;
    agent.result = Some(
        build_completion_result(
            agent.id,
            event.method.as_str(),
            turn,
            &event.params,
            event.ts,
            event.event_id,
        ),
    );
    if same_text(event.method.as_str(), constants::EVENT_METHOD_TURN_ABORTED) {
        let error = text_in(event.params.get("error"));
        report_abort(agent, error, &event.params, event.ts);
    }
}

/// The status that an event gives to its thread.
pub open spec fn thread_status(e: IncomingView) -> Option<Seq<char>> {
    if e.method == constants::THREAD_EVENT_STARTED@ {
        json::text_of(json::member(e.params, "status"@))
    } else {
        None
    }
}

/// The result of a thread that reached a status with which a turn ends.
pub open spec fn status_result(
    a: agent::AgentView,
    e: IncomingView,
    status: Seq<char>,
    method: Seq<char>,
) -> models::ResultView {
    let r = completion_result(
        a.id,
        method,
        event_turn(a, e.params),
        e.params,
        e.ts,
        e.event_id,
    );
    models::ResultView {
        status: if method == constants::EVENT_METHOD_TURN_ABORTED@ && status
            != constants::EVENT_STATUS_ABORTED@ {
            constants::EVENT_STATUS_FAILED@
        } else {
            r.status
        },
        error: json::text_of(json::member(e.params, "error"@)),
        ..r
    }
}

/// An agent whose thread reached a status: it has the status, and where a turn ends with it, a
/// result, and a failure report where the turn did not succeed.
pub open spec fn after_thread_status(
    a: agent::AgentView,
    e: IncomingView,
    status: Seq<char>,
) -> agent::AgentView {
    match extract::completion_method(status) {
        Some(method) => {
            let r = status_result(a, e, status, method);
            agent::AgentView {
                status,
                failure_report: if method == constants::EVENT_METHOD_TURN_ABORTED@ {
                    Some(aborted_report(a.failure_report, r.error, e.params, e.ts))
                } else {
                    a.failure_report
                },
                result: Some(r),
                ..a
            }
        },
        None => agent::AgentView { status, ..a },
    }
}

fn change_thread_status(agent: &mut AgentRecord, event: &IncomingEvent, status: String) -> (ended: bool)
    ensures
        final(agent)@ == after_thread_status(old(agent)@, event@, status@),
        ended == extract::completion_method(status@) is Some,
{
    let method = completion_method_for_thread_status(status.as_str());
    let aborted_itself = same_text(status.as_str(), constants::EVENT_STATUS_ABORTED);
    agent.status = status;
    match method {
        Some(method) => {
            let turn = either_text(parse_turn_id(&event.params), agent.active_turn_id.clone());
            let mut result = build_completion_result(
                agent.id,
                method,
                turn,
                &event.params,
                event.ts,
                event.event_id,
            );
            let aborted = same_text(method, constants::EVENT_METHOD_TURN_ABORTED);
            if aborted && !aborted_itself {
                result.status = constants::EVENT_STATUS_FAILED.to_owned();
            }
            result.error = text_in(event.params.get("error"));
            if aborted {
                report_abort(agent, result.error.clone(), &event.params, event.ts);
            }
            agent.result = Some(result);
            true
        },
        None => false,
    }
}

/// An agent whose turn has started.
pub open spec fn after_turn_start(a: agent::AgentView, turn: Seq<char>) -> agent::AgentView {
    agent::AgentView {
        status: constants::AGENT_STATUS_RUNNING@,
        active_turn_id: Some(turn),
        result: None,
        ..a
    }
}

/// Whether an event carries a message of the agent.
pub open spec fn is_message(e: IncomingView) -> bool {
    e.method == constants::EVENT_METHOD_ITEM_AGENT_MESSAGE@ || e.method
        == constants::EVENT_METHOD_ITEM_AGENT_MESSAGE_DELTA@ || (e.method
        == constants::EVENT_METHOD_ITEM_COMPLETED@ && extract::has_agent_item(e.params))
}

/// An agent that sent a message.
pub open spec fn after_message(a: agent::AgentView, e: IncomingView) -> agent::AgentView {
    agent::AgentView {
        result: Some(
            extended_result(
                a.result,
                a.id,
                e.method,
                event_turn(a, e.params),
                e.params,
                e.event_id,
                e.ts,
            ),
        ),
        ..a
    }
}

/// An agent that got an event, before the event's own effect: the event is kept, and what it
/// used up is counted.
pub open spec fn after_arrival(a: agent::AgentView, e: IncomingView) -> agent::AgentView {
    agent::AgentView {
        updated_at: e.ts,
        events: buffered(
            a.events,
            models::EventView { ts: e.ts, method: e.method, params: e.params },
        ),
        budget: agent::BudgetView {
            estimated_cost_usd: e.cost,
            elapsed_ms: if e.now_ms >= a.budget.started_at_ms {
                (e.now_ms - a.budget.started_at_ms) as u64
            } else {
                0
            },
            ..budget::with_tokens(a.budget, e.params)
        },
        ..a
    }
}

fn arrive(agent: &mut AgentRecord, event: &IncomingEvent)
    ensures
        final(agent)@ == after_arrival(old(agent)@, event@),
        agent::buffer_ok(final(agent)@),
{
    agent.updated_at = event.ts;
    let kept = AgentEventDto {
        ts: event.ts,
        method: event.method.clone(),
        params: event.params.clone(),
    };
    buffer_event(&mut agent.events, kept);
    let change = update_budget_counters(&mut agent.budget, &event.params);
    agent.budget.estimated_cost_usd = event.cost.clone();
    agent.budget.elapsed_ms = event.now_ms.saturating_sub(agent.budget.started_at_ms);
}

/// What an event does to an agent.
pub open spec fn after_event(a: agent::AgentView, e: IncomingView) -> agent::AgentView {
    let b = after_arrival(a, e);
    let c = if ends_turn(e.method) {
        after_turn_end(b, e)
    } else {
        b
    };
    let d = match thread_status(e) {
        Some(status) => after_thread_status(c, e, status),
        None => c,
    };
    let f = match protocol::turn_of(e.params) {
        Some(turn) => if e.method == constants::EVENT_METHOD_TURN_STARTED@ {
            after_turn_start(d, turn)
        } else {
            d
        },
        None => d,
    };
    if is_message(e) {
        after_message(f, e)
    } else {
        f
    }
}

/// Whether an event ends the work of a turn, so that its job and the governor have to know.
pub open spec fn ends_work(e: IncomingView) -> bool {
    ends_turn(e.method) || (thread_status(e) matches Some(s) && extract::completion_method(
        s,
    ) is Some)
}

/// What the callbacks of an event are told.
#[derive(Debug)]
pub struct CallbackEventContext {
    pub agent_id: u128,
    pub thread_id: String,
    pub turn_id: Option<String>,
    pub role: AgentRole,
    pub project_id: Option<u128>,
    pub foreman_id: Option<u128>,
    pub job_id: Option<u128>,
    pub method: String,
    pub ts: u64,
    pub params: Json,
    pub event_id: u128,
    pub result_snapshot: Option<AgentResult>,
    pub callback: WorkerCallback,
}

/// What a context says.
pub struct ContextView {
    pub agent_id: u128,
    pub thread_id: Seq<char>,
    pub turn_id: Option<Seq<char>>,
    pub role: AgentRole,
    pub project_id: Option<u128>,
    pub foreman_id: Option<u128>,
    pub job_id: Option<u128>,
    pub method: Seq<char>,
    pub ts: u64,
    pub params: json::JsonView,
    pub event_id: u128,
    pub result_snapshot: Option<models::ResultView>,
    pub callback: agent::CallbackView,
}

impl View for CallbackEventContext {
    type V = ContextView;

    open spec fn view(&self) -> ContextView {
        ContextView {
            agent_id: self.agent_id,
            thread_id: self.thread_id@,
            turn_id: text::opt_text(self.turn_id),
            role: self.role,
            project_id: self.project_id,
            foreman_id: self.foreman_id,
            job_id: self.job_id,
            method: self.method@,
            ts: self.ts,
            params: self.params@,
            event_id: self.event_id,
            result_snapshot: models::opt_result(self.result_snapshot),
            callback: self.callback@,
        }
    }
}

impl CallbackEventContext {
    /// The same under another name of the event.
    pub fn with_method(&self, method: &str) -> (r: CallbackEventContext)
        ensures
            r@ == (ContextView { method: method@, ..self@ }),
    {
        CallbackEventContext {
            agent_id: self.agent_id,
            thread_id: self.thread_id.clone(),
            turn_id: self.turn_id.clone(),
            role: self.role,
            project_id: self.project_id,
            foreman_id: self.foreman_id,
            job_id: self.job_id,
            method: method.to_owned(),
            ts: self.ts,
            params: self.params.clone(),
            event_id: self.event_id,
            result_snapshot: clone_opt_result(&self.result_snapshot),
            callback: self.callback.clone(),
        }
    }

    /// The project that hears of the event: that of a worker.
    pub fn worker_project(&self) -> (r: Option<u128>)
        ensures
            r == (if self@.role == AgentRole::Worker {
                self@.project_id
            } else {
                None
            }),
    {
        match self.role {
            AgentRole::Worker => self.project_id,
            _ => None,
        }
    }
}

/// What the callbacks of an event are told of an agent as the event left it.
pub open spec fn context_of(a: agent::AgentView, e: IncomingView) -> ContextView {
    ContextView {
        agent_id: a.id,
        thread_id: a.thread_id,
        turn_id: event_turn(a, e.params),
        role: a.role,
        project_id: a.project_id,
        foreman_id: a.foreman_id,
        job_id: a.job_id,
        method: e.method,
        ts: e.ts,
        params: e.params,
        event_id: e.event_id,
        result_snapshot: a.result,
        callback: a.callback,
    }
}

/// What is told to those who watch an agent.
pub struct ProgressView {
    pub agent_id: u128,
    pub ts: u64,
    pub event: Seq<char>,
    pub status: Seq<char>,
    pub turn_id: Option<Seq<char>>,
    pub tool_call: Option<(Seq<char>, Option<Seq<char>>, Option<Seq<char>>, u64)>,
    pub validation: Option<(u32, Option<Seq<char>>)>,
    pub throttle: Option<(bool, Option<u64>, Option<Seq<char>>)>,
    pub budget: Option<json::JsonView>,
    pub payload: json::JsonView,
}

impl View for AgentProgressEnvelope {
    type V = ProgressView;

    open spec fn view(&self) -> ProgressView {
        ProgressView {
            agent_id: self.agent_id,
            ts: self.ts,
            event: self.event@,
            status: self.status@,
            turn_id: text::opt_text(self.turn_id),
            tool_call: match self.tool_call {
                Some(c) => Some(tools::call_view(c)),
                None => None,
            },
            validation: match self.validation {
                Some(v) => Some((v.retries, text::opt_text(v.last_error))),
                None => None,
            },
            throttle: match self.throttle {
                Some(t) => Some((t.throttled, t.retry_at_ms, text::opt_text(t.reason))),
                None => None,
            },
            budget: match self.budget {
                Some(b) => Some(b@),
                None => None,
            },
            payload: self.payload@,
        }
    }
}

/// How long the texts in what is told may be.
pub const PROGRESS_TEXT_MAX: usize = 240;

/// What is told of an event to those who watch an agent.
pub open spec fn event_progress(a: agent::AgentView, e: models::EventView) -> ProgressView {
    ProgressView {
        agent_id: a.id,
        ts: e.ts,
        event: e.method,
        status: a.status,
        turn_id: event_turn(a, e.params),
        tool_call: tools::call_of(e),
        validation: if a.last_validation_error is Some || a.validation_retries > 0 {
            Some((a.validation_retries, a.last_validation_error))
        } else {
            None
        },
        throttle: Some((a.throttled, a.retry_at_ms, a.throttle_reason)),
        budget: Some(budget::budget_json(a.budget)),
        payload: json_search::shortened_value(e.params, PROGRESS_TEXT_MAX),
    }
}

fn throttle_state(agent: &AgentRecord) -> (r: ProgressThrottleState)
    ensures
        r.throttled == agent@.throttled,
        r.retry_at_ms == agent@.retry_at_ms,
        text::opt_text(r.reason) == agent@.throttle_reason,
{
    ProgressThrottleState {
        throttled: agent.throttled,
        retry_at_ms: agent.retry_at_ms,
        reason: agent.throttle_reason.clone(),
    }
}

fn validation_state(agent: &AgentRecord) -> (r: ProgressValidationState)
    ensures
        r.retries == agent@.validation_retries,
        text::opt_text(r.last_error) == agent@.last_validation_error,
{
    ProgressValidationState {
        retries: agent.validation_retries,
        last_error: agent.last_validation_error.clone(),
    }
}

/// What is told of an event to those who watch an agent.
pub fn progress_from_agent_event(agent: &AgentRecord, event: &AgentEventDto) -> (r: AgentProgressEnvelope)
    ensures
        r@ == event_progress(agent@, event@),
{
    let validation = if agent.last_validation_error.is_some() || agent.validation_retries > 0 {
        Some(validation_state(agent))
    } else {
        None
    };
    AgentProgressEnvelope {
        agent_id: agent.id,
        ts: event.ts,
        event: event.method.clone(),
        status: agent.status.clone(),
        turn_id: either_text(parse_turn_id(&event.params), agent.active_turn_id.clone()),
        tool_call: parse_tool_call_summary(event),
        validation,
        throttle: Some(throttle_state(agent)),
        budget: Some(worker_budget_json(agent)),
        payload: truncate_json_value(&event.params, PROGRESS_TEXT_MAX),
    }
}

/// What is told of an agent's state, under a name, to those who watch it.
pub open spec fn state_progress(
    a: agent::AgentView,
    event: Seq<char>,
    ts: u64,
    with_validation: bool,
) -> ProgressView {
    ProgressView {
        agent_id: a.id,
        ts,
        event,
        status: a.status,
        turn_id: a.active_turn_id,
        tool_call: None,
        validation: if with_validation {
            Some((a.validation_retries, a.last_validation_error))
        } else {
            None
        },
        throttle: Some((a.throttled, a.retry_at_ms, a.throttle_reason)),
        budget: Some(budget::budget_json(a.budget)),
        payload: json::JsonView::Object(Seq::empty()),
    }
}

fn progress_state(agent: &AgentRecord, event: &str, ts: u64, with_validation: bool) -> (r: AgentProgressEnvelope)
    ensures
        r@ == state_progress(agent@, event@, ts, with_validation),
{
    let validation = if with_validation {
        Some(validation_state(agent))
    } else {
        None
    };
    AgentProgressEnvelope {
        agent_id: agent.id,
        ts,
        event: event.to_owned(),
        status: agent.status.clone(),
        turn_id: agent.active_turn_id.clone(),
        tool_call: None,
        validation,
        throttle: Some(throttle_state(agent)),
        budget: Some(worker_budget_json(agent)),
        payload: crate::json_build::empty_object(),
    }
}

/// What is told of the checks of an agent's work.
pub fn progress_validation_state(agent: &AgentRecord, event: &str, ts: u64) -> (r: AgentProgressEnvelope)
    ensures
        r@ == state_progress(agent@, event@, ts, true),
{
    progress_state(agent, event, ts, true)
}

/// What is told of an agent that has to wait.
pub fn progress_throttle_state(agent: &AgentRecord, event: &str, ts: u64) -> (r: AgentProgressEnvelope)
    ensures
        r@ == state_progress(agent@, event@, ts, false),
{
    progress_state(agent, event, ts, false)
}

/// What is told of what an agent has used up.
pub fn progress_budget_state(agent: &AgentRecord, event: &str, ts: u64) -> (r: AgentProgressEnvelope)
    ensures
        r@ == state_progress(agent@, event@, ts, false),
{
    progress_state(agent, event, ts, false)
}

/// What is looked at when a command of a project's agent has run.
#[derive(Debug)]
pub struct ToolFilterDispatchContext {
    pub agent_id: u128,
    pub job_id: Option<u128>,
    pub project_id: u128,
    pub params: Json,
}

/// Whether the filters of the agent's project look at an event.
pub open spec fn filters_look(a: agent::AgentView, e: IncomingView) -> bool {
    e.method == constants::EVENT_METHOD_ITEM_COMPLETED@ && json::text_of(
        json::inner(extract::item_of(e.params), "type"@),
    ) == Some("commandExecution"@) && a.project_id is Some
}

/// What follows from an event.
#[derive(Debug)]
pub struct EventOutcome {
    pub tool_filter: Option<ToolFilterDispatchContext>,
    pub context: CallbackEventContext,
    pub ends_work: bool,
    pub progress: AgentProgressEnvelope,
}

/// What follows from an event that left an agent as `a`.
pub open spec fn is_outcome(o: EventOutcome, a: agent::AgentView, e: IncomingView) -> bool {
    &&& o.tool_filter is Some == filters_look(a, e)
    &&& o.tool_filter matches Some(t) ==> t.agent_id == a.id && t.job_id == a.job_id && Some(
        t.project_id,
    ) == a.project_id && t.params@ == e.params
    &&& o.context@ == context_of(a, e)
    &&& o.ends_work == ends_work(e)
    &&& o.progress@ == event_progress(
        a,
        models::EventView {
            ts: e.ts,
            method: e.method,
            params: json_search::shortened_value(e.params, PROGRESS_TEXT_MAX),
        },
    )
}

/// What follows from an event.
fn conclude(agent: &AgentRecord, event: &IncomingEvent, ends: bool) -> (r: EventOutcome)
    requires
        ends == ends_work(event@),
    ensures
        is_outcome(r, agent@, event@),
{
    let tool_filter = match agent.project_id {
        Some(project_id) => if is_command_execution_item_completed(
            event.method.as_str(),
            &event.params,
        ) {
            Some(
                ToolFilterDispatchContext {
                    agent_id: agent.id,
                    job_id: agent.job_id,
                    project_id,
                    params: event.params.clone(),
                },
            )
        } else {
            None
        },
        None => None,
    };
    let context = CallbackEventContext {
        agent_id: agent.id,
        thread_id: agent.thread_id.clone(),
        turn_id: either_text(parse_turn_id(&event.params), agent.active_turn_id.clone()),
        role: agent.role,
        project_id: agent.project_id,
        foreman_id: agent.foreman_id,
        job_id: agent.job_id,
        method: event.method.clone(),
        ts: event.ts,
        params: event.params.clone(),
        event_id: event.event_id,
        result_snapshot: match &agent.result {
            Some(r) => Some(r.clone()),
            None => None,
        },
        callback: agent.callback.clone(),
    };
    let told = AgentEventDto {
        ts: event.ts,
        method: event.method.clone(),
        params: truncate_json_value(&event.params, PROGRESS_TEXT_MAX),
    };
    let progress = progress_from_agent_event(agent, &told);
    EventOutcome { tool_filter, context, ends_work: ends, progress }
}

/// Takes an event to its agent. Says what follows from it.
pub fn apply_event(agent: &mut AgentRecord, event: &IncomingEvent) -> (r: EventOutcome)
    ensures
        final(agent)@ == after_event(old(agent)@, event@),
        agent::buffer_ok(final(agent)@),
        is_outcome(r, final(agent)@, event@),
{
    arrive(agent, event);
    let method = event.method.as_str();
    let mut ends = false;
    if same_text(method, constants::EVENT_METHOD_TURN_COMPLETED) || same_text(
        method,
        constants::EVENT_METHOD_TURN_ABORTED,
    ) {
        end_turn(agent, event);
        ends = true;
    }
    if same_text(method, constants::THREAD_EVENT_STARTED) {
        if let Some(status) = text_in(event.params.get("status")) {
            if change_thread_status(agent, event, status) {
                ends = true;
            }
        }
    }
    if same_text(method, constants::EVENT_METHOD_TURN_STARTED) {
        if let Some(turn) = parse_turn_id(&event.params) {
            agent.status = constants::AGENT_STATUS_RUNNING.to_owned();
            agent.active_turn_id = Some(turn);
            agent.result = None;
        }
    }
    if same_text(method, constants::EVENT_METHOD_ITEM_AGENT_MESSAGE) || same_text(
        method,
        constants::EVENT_METHOD_ITEM_AGENT_MESSAGE_DELTA,
    ) || (same_text(method, constants::EVENT_METHOD_ITEM_COMPLETED)
        && is_agent_item_completion_payload(&event.params)) {
        let turn = either_text(parse_turn_id(&event.params), agent.active_turn_id.clone());
        let known = agent.result.take();
        agent.result = Some(
            update_agent_result_text(
                known,
                agent.id,
                method,
                turn,
                &event.params,
                event.event_id,
                event.ts,
            ),
        );
    }
    conclude(agent, event, ends)
}

/// The error of a callback that failed.
pub open spec fn after_callback_failure(a: agent::AgentView, error: Seq<char>, ts: u64) -> agent::AgentView {
    agent::AgentView {
        error: Some("callback execution failed: "@ + error),
        failure_report: Some(
            failure::next_report(
                a.failure_report,
                FailureClass::CallbackError,
                "callback execution failed"@,
                Some(error),
                true,
                ts,
            ),
        ),
        updated_at: ts,
        ..a
    }
}

/// Takes note of a callback that failed.
pub fn record_callback_failure(agent: &mut AgentRecord, error: &str, ts: u64)
    ensures
        final(agent)@ == after_callback_failure(old(agent)@, error@, ts),
{
    let mut message = "callback execution failed: ".to_owned();
    message.append(error);
    agent.error = Some(message);
    update_failure_report(
        &mut agent.failure_report,
        FailureClass::CallbackError,
        "callback execution failed".to_owned(),
        Some(error.to_owned()),
        true,
        ts,
    );
    agent.updated_at = ts;
}

/// A callback that failed leaves an agent at what it does: only its error, its report and the time
/// of its last change tell of it.
pub proof fn law_failed_callback_leaves_the_work_alone(a: agent::AgentView, error: Seq<char>, ts: u64)
    ensures
        ({
            let b = after_callback_failure(a, error, ts);
            &&& b == (agent::AgentView {
                error: b.error,
                failure_report: b.failure_report,
                updated_at: b.updated_at,
                ..a
            })
            &&& b.error is Some
            &&& b.failure_report matches Some(f) && f.class == FailureClass::CallbackError
        }),
{
}

/// Whatever events an agent gets, no more of them are kept than the buffer takes, the last one
/// is, and the agent stays who it is.
pub proof fn law_event_buffer_is_bounded(a: agent::AgentView, e: IncomingView)
    requires
        agent::buffer_ok(a),
    ensures
        agent::buffer_ok(after_event(a, e)),
        after_event(a, e).events.last() == (models::EventView {
            ts: e.ts,
            method: e.method,
            params: e.params,
        }),
        after_event(a, e).id == a.id,
        after_event(a, e).thread_id == a.thread_id,
        after_event(a, e).updated_at == e.ts,
{
}

/// The names of events are told apart.
proof fn lemma_methods_differ()
    ensures
        "turn/completed"@ != "turn/aborted"@,
        "turn/completed"@ != "turn/started"@,
        "turn/completed"@ != "thread/status/changed"@,
        "turn/completed"@ != "item/agentMessage"@,
        "turn/completed"@ != "item/agentMessage/delta"@,
        "turn/completed"@ != "item/completed"@,
        "turn/aborted"@ != "turn/started"@,
        "turn/aborted"@ != "thread/status/changed"@,
        "turn/aborted"@ != "item/agentMessage"@,
        "turn/aborted"@ != "item/agentMessage/delta"@,
        "turn/aborted"@ != "item/completed"@,
        "turn/started"@ != "thread/status/changed"@,
        "turn/started"@ != "item/agentMessage"@,
        "turn/started"@ != "item/agentMessage/delta"@,
        "turn/started"@ != "item/completed"@,
        "thread/status/changed"@ != "item/agentMessage"@,
        "thread/status/changed"@ != "item/agentMessage/delta"@,
        "thread/status/changed"@ != "item/completed"@,
        "item/agentMessage"@ != "item/agentMessage/delta"@,
        "item/agentMessage"@ != "item/completed"@,
        "item/agentMessage/delta"@ != "item/completed"@,
{
    reveal_strlit("turn/completed");
    reveal_strlit("turn/aborted");
    reveal_strlit("turn/started");
    reveal_strlit("thread/status/changed");
    reveal_strlit("item/agentMessage");
    reveal_strlit("item/agentMessage/delta");
    reveal_strlit("item/completed");
    assert("turn/completed"@.len() == 14 && "turn/completed"@[5] == 'c');
    assert("turn/aborted"@.len() == 12 && "turn/aborted"@[0] == 't');
    assert("turn/started"@.len() == 12 && "turn/started"@[5] == 's');
    assert("turn/aborted"@[5] == 'a');
    assert("thread/status/changed"@.len() == 21);
    assert("item/agentMessage"@.len() == 17);
    assert("item/agentMessage/delta"@.len() == 23);
    assert("item/completed"@.len() == 14 && "item/completed"@[5] == 'c');
    assert("item/completed"@[0] == 'i' && "turn/completed"@[0] == 't');
}

/// An event that ends a turn leaves a result that tells how it ended: aborted after an abort and
/// completed after a completion, never the other way round. The result is that of the agent, the
/// turn, the event and its time, and the agent is idle and waits for no provider.
pub proof fn law_ended_turns_are_told_apart(a: agent::AgentView, e: IncomingView)
    requires
        e.method == "turn/completed"@ || e.method == "turn/aborted"@,
    ensures
        after_event(a, e).result is Some,
        after_event(a, e).result->0.status == "aborted"@ <==> e.method == "turn/aborted"@,
        after_event(a, e).result->0.status == "completed"@ <==> e.method == "turn/completed"@,
        after_event(a, e).result->0.completion_method == Some(e.method),
        after_event(a, e).result->0.agent_id == a.id,
        after_event(a, e).result->0.completed_at == Some(e.ts),
        after_event(a, e).result->0.event_id == Some(e.event_id),
        after_event(a, e).result->0.error is None,
        protocol::turn_of(e.params) is Some ==> after_event(a, e).result->0.turn_id
            == protocol::turn_of(e.params),
        protocol::turn_of(e.params) is None ==> after_event(a, e).result->0.turn_id
            == a.active_turn_id,
        after_event(a, e).status == "idle"@,
        !after_event(a, e).throttled,
        after_event(a, e).retry_at_ms is None,
        after_event(a, e).throttle_reason is None,
        after_event(a, e).active_turn_id == a.active_turn_id,
        after_event(a, e).prompt == a.prompt,
{
    lemma_methods_differ();
    reveal_strlit("aborted");
    reveal_strlit("completed");
    assert("aborted"@.len() == 7 && "completed"@.len() == 9);
}

/// A turn that is complete counts and leaves a checkpoint of where the agent stands, and it tells
/// of no failure. One that was broken off leaves count and checkpoint as they were, and a report of
/// its error.
pub proof fn law_only_success_counts_and_is_kept(a: agent::AgentView, e: IncomingView)
    ensures
        e.method == "turn/completed"@ ==> {
            let b = after_event(a, e);
            &&& b.turns_completed == (if a.turns_completed < u32::MAX {
                a.turns_completed + 1
            } else {
                u32::MAX as int
            })
            &&& b.checkpoint.last_successful_turn_id == (if protocol::turn_of(e.params) is Some {
                protocol::turn_of(e.params)
            } else {
                a.active_turn_id
            })
            &&& b.checkpoint.worktree_path == a.worktree_path
            &&& b.checkpoint.branch_name == a.branch_name
            &&& b.checkpoint.validation_retries == a.validation_retries
            &&& b.checkpoint.last_validation_error == a.last_validation_error
            &&& b.checkpoint.retry_count == a.checkpoint.retry_count
            &&& b.failure_report == a.failure_report
        },
        e.method != "turn/completed"@ ==> after_event(a, e).turns_completed == a.turns_completed
            && after_event(a, e).checkpoint == a.checkpoint,
        e.method == "turn/aborted"@ ==> {
            let f = after_event(a, e).failure_report;
            &&& f is Some
            &&& f->0.last_seen == e.ts
            &&& json::member(e.params, "error"@) matches Some(json::JsonView::Text(t))
                ==> f->0.details == Some(t)
            &&& a.failure_report is None ==> f->0.first_seen == e.ts
        },
{
    lemma_methods_differ();
}

/// A turn that starts is the agent's turn from then on: the agent runs, and the result of an
/// earlier turn is gone. An event without a turn starts none.
pub proof fn law_started_turn_is_the_agents_turn(a: agent::AgentView, e: IncomingView)
    requires
        e.method == "turn/started"@,
    ensures
        protocol::turn_of(e.params) is Some ==> {
            let b = after_event(a, e);
            &&& b.status == "running"@
            &&& b.active_turn_id == protocol::turn_of(e.params)
            &&& b.result is None
        },
        protocol::turn_of(e.params) is None ==> {
            let b = after_event(a, e);
            &&& b.status == a.status
            &&& b.active_turn_id == a.active_turn_id
            &&& b.result == a.result
        },
        !ends_work(e),
{
    lemma_methods_differ();
}

/// A thread that changes its status gives it to its agent. Where the status is an end, there is a
/// result: completed for the one good end, aborted for an abort, and failed for every other bad
/// end, with the error that the event names and a report of it. A status that is no end leaves the
/// result alone.
pub proof fn law_thread_status_decides_the_result(
    a: agent::AgentView,
    e: IncomingView,
    status: Seq<char>,
)
    requires
        e.method == "thread/status/changed"@,
        json::member(e.params, "status"@) == Some(json::JsonView::Text(status)),
    ensures
        after_event(a, e).status == status,
        status == "completed"@ ==> {
            let b = after_event(a, e);
            &&& b.result is Some
            &&& b.result->0.status == "completed"@
            &&& b.result->0.completion_method == Some("turn/completed"@)
            &&& b.failure_report == a.failure_report
            &&& ends_work(e)
        },
        status == "aborted"@ ==> {
            let b = after_event(a, e);
            &&& b.result is Some
            &&& b.result->0.status == "aborted"@
            &&& b.result->0.completion_method == Some("turn/aborted"@)
            &&& b.failure_report is Some
            &&& ends_work(e)
        },
        status == "failed"@ || status == "error"@ || status == "interrupted"@ || status
            == "stopped"@ || status == "timeout"@ || status == "timed_out"@ ==> {
            let b = after_event(a, e);
            &&& b.result is Some
            &&& b.result->0.status == "failed"@
            &&& b.result->0.completion_method == Some("turn/aborted"@)
            &&& b.failure_report is Some
            &&& b.failure_report->0.last_seen == e.ts
            &&& b.result->0.error is Some ==> b.failure_report->0.details == b.result->0.error
            &&& ends_work(e)
        },
        status != "completed"@ && status != "aborted"@ && status != "failed"@ && status != "error"@
            && status != "interrupted"@ && status != "stopped"@ && status != "timeout"@ && status
            != "timed_out"@ ==> after_event(a, e).result == a.result && !ends_work(e)
            && after_event(a, e).failure_report == a.failure_report,
        ends_work(e) ==> {
            let r = after_event(a, e).result->0;
            &&& r.completed_at == Some(e.ts)
            &&& r.agent_id == a.id
            &&& r.error == (match json::member(e.params, "error"@) {
                Some(json::JsonView::Text(t)) => Some(t),
                _ => None,
            })
        },
{
    lemma_methods_differ();
    reveal_strlit("completed");
    reveal_strlit("aborted");
    reveal_strlit("failed");
    reveal_strlit("error");
    reveal_strlit("interrupted");
    reveal_strlit("stopped");
    reveal_strlit("timeout");
    reveal_strlit("timed_out");
    assert("completed"@.len() == 9 && "completed"@[0] == 'c');
    assert("aborted"@.len() == 7 && "aborted"@[0] == 'a');
    assert("failed"@.len() == 6);
    assert("error"@.len() == 5);
    assert("interrupted"@.len() == 11);
    assert("stopped"@.len() == 7 && "stopped"@[0] == 's');
    assert("timeout"@.len() == 7 && "timeout"@[0] == 't');
    assert("timed_out"@.len() == 9 && "timed_out"@[0] == 't');
}

/// An event that neither starts nor ends anything and carries no message of the agent is only
/// taken note of: the agent goes on as it was.
pub proof fn law_other_events_are_only_noted(a: agent::AgentView, e: IncomingView)
    requires
        e.method != "turn/started"@,
        e.method != "turn/completed"@,
        e.method != "turn/aborted"@,
        e.method != "thread/status/changed"@,
        e.method != "item/agentMessage"@,
        e.method != "item/agentMessage/delta"@,
        e.method != "item/completed"@,
    ensures
        after_event(a, e) == (agent::AgentView {
            updated_at: e.ts,
            events: after_event(a, e).events,
            budget: after_event(a, e).budget,
            ..a
        }),
        !ends_work(e),
{
}

/// The events that are kept of an agent are its last ones in their order: the new one comes last,
/// those before it are the last of the ones that were kept, and none goes before there are fifty.
pub proof fn law_last_events_are_kept_in_order(a: agent::AgentView, e: IncomingView)
    ensures
        ({
            let old = a.events;
            let new = after_event(a, e).events;
            &&& new.len() <= 50
            &&& old.len() < 50 ==> new.len() == old.len() + 1
            &&& old.len() >= 50 ==> new.len() == 50
            &&& new.last().ts == e.ts && new.last().method == e.method && new.last().params
                == e.params
            &&& forall|k: int|
                1 <= k < new.len() ==> #[trigger] new[new.len() - 1 - k] == old[old.len() - k]
        }),
{
}

/// What messages of an agent say is put together in the order in which they come: a message adds
/// its text behind what is there and drops nothing, and the status of a result that is there stays.
pub proof fn law_messages_add_up(a: agent::AgentView, e: IncomingView)
    requires
        e.method == "item/agentMessage"@ || e.method == "item/agentMessage/delta"@,
    ensures
        ({
            let b = after_event(a, e);
            let said = extract::result_text(e.method, e.params);
            let before = match a.result {
                Some(r) => r.final_text,
                None => None,
            };
            &&& b.result is Some
            &&& said is None ==> b.result->0.final_text == before
            &&& said is Some && before is None ==> b.result->0.final_text == said
            &&& said is Some && before is Some ==> b.result->0.final_text == Some(
                before->0 + said->0,
            )
            &&& a.result matches Some(r) ==> b.result->0.status == r.status
                && b.result->0.completion_method == r.completion_method
            &&& a.result is None ==> b.result->0.status == "completed"@
                && b.result->0.completion_method == Some(e.method)
            &&& b.status == a.status
            &&& b.active_turn_id == a.active_turn_id
            &&& !ends_work(e)
        }),
{
    lemma_methods_differ();
    extract::lemma_message_text_is_not_blank(e.method, e.params);
}

/// Whatever an event is, the tokens it reports are put on top of what the agent has used up, up to
/// the largest number, and nothing is taken away; after two events the sum of both is there. Its
/// time is that since it started.
pub proof fn law_events_count_tokens(a: agent::AgentView, first: IncomingView, second: IncomingView)
    ensures
        ({
            let b = after_event(a, first).budget;
            let n = json_search::amount_under(first.params, seq!["prompt_tokens"@, "input_tokens"@]);
            let m = json_search::amount_under(
                first.params,
                seq!["output_tokens"@, "completion_tokens"@],
            );
            let k = json_search::amount_under(
                first.params,
                seq!["cached_tokens"@, "cache_read_tokens"@],
            );
            &&& b.prompt_tokens >= a.budget.prompt_tokens
            &&& b.output_tokens >= a.budget.output_tokens
            &&& b.cached_tokens >= a.budget.cached_tokens
            &&& n is None ==> b.prompt_tokens == a.budget.prompt_tokens
            &&& m is None ==> b.output_tokens == a.budget.output_tokens
            &&& k is None ==> b.cached_tokens == a.budget.cached_tokens
            &&& n is Some && a.budget.prompt_tokens + n->0 <= u64::MAX ==> b.prompt_tokens
                == a.budget.prompt_tokens + n->0
            &&& n is Some && a.budget.prompt_tokens + n->0 > u64::MAX ==> b.prompt_tokens
                == u64::MAX
            &&& m is Some && a.budget.output_tokens + m->0 <= u64::MAX ==> b.output_tokens
                == a.budget.output_tokens + m->0
            &&& k is Some && a.budget.cached_tokens + k->0 <= u64::MAX ==> b.cached_tokens
                == a.budget.cached_tokens + k->0
            &&& first.now_ms >= a.budget.started_at_ms ==> b.elapsed_ms == first.now_ms
                - a.budget.started_at_ms
            &&& b.started_at_ms == a.budget.started_at_ms && b.exceeded == a.budget.exceeded
                && b.paused_reason == a.budget.paused_reason
        }),
        ({
            let c = after_event(after_event(a, first), second).budget;
            let n = json_search::amount_under(first.params, seq!["prompt_tokens"@, "input_tokens"@]);
            let m = json_search::amount_under(
                second.params,
                seq!["prompt_tokens"@, "input_tokens"@],
            );
            n is Some && m is Some && a.budget.prompt_tokens + n->0 + m->0 <= u64::MAX
                ==> c.prompt_tokens == a.budget.prompt_tokens + n->0 + m->0
        }),
{
    budget::law_tokens_add_up(a.budget, first.params);
    let b = after_event(a, first);
    budget::law_tokens_add_up(b.budget, second.params);
}

/// What the callbacks are told of an event is of the agent it came for, with its result, and the
/// event itself as it came.
pub proof fn law_callbacks_are_told_of_the_agent(a: agent::AgentView, e: IncomingView)
    ensures
        ({
            let c = context_of(a, e);
            &&& c.agent_id == a.id && c.thread_id == a.thread_id && c.role == a.role
            &&& c.project_id == a.project_id && c.foreman_id == a.foreman_id && c.job_id == a.job_id
            &&& c.method == e.method && c.params == e.params && c.ts == e.ts && c.event_id
                == e.event_id
            &&& c.result_snapshot == a.result && c.callback == a.callback
        }),
        filters_look(a, e) ==> e.method == "item/completed"@ && a.project_id is Some,
        e.method == "turn/completed"@ || e.method == "turn/aborted"@ ==> ends_work(e),
        ({
            let b = after_callback_failure(a, e.method, e.ts);
            &&& b.error == Some("callback execution failed: "@ + e.method)
            &&& b.failure_report is Some && b.failure_report->0.retryable
            &&& b.status == a.status && b.result == a.result
        }),
{
}

/// What is told of the state of an agent is its state: the event, its status, its turn, what it
/// waits for and what it has used up; what was found of its work where that is asked for or there
/// is anything to tell.
pub proof fn law_progress_tells_the_state(
    a: agent::AgentView,
    e: models::EventView,
    event: Seq<char>,
    ts: u64,
)
    ensures
        ({
            let p = state_progress(a, event, ts, true);
            let q = state_progress(a, event, ts, false);
            &&& p.agent_id == a.id && p.ts == ts && p.event == event && p.status == a.status
            &&& p.turn_id == a.active_turn_id && p.tool_call is None
            &&& p.validation == Some((a.validation_retries, a.last_validation_error))
            &&& q.validation is None && q.event == event && q.status == a.status
            &&& p.throttle == Some((a.throttled, a.retry_at_ms, a.throttle_reason))
        }),
        ({
            let p = event_progress(a, e);
            &&& p.agent_id == a.id && p.ts == e.ts && p.event == e.method && p.status == a.status
            &&& p.tool_call == tools::call_of(e)
            &&& a.last_validation_error is Some || a.validation_retries > 0 ==> p.validation
                == Some((a.validation_retries, a.last_validation_error))
            &&& a.last_validation_error is None && a.validation_retries == 0 ==> p.validation
                is None
            &&& p.throttle == Some((a.throttled, a.retry_at_ms, a.throttle_reason))
        }),
{
}

} // verus!

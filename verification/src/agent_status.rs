//! What is told of an agent: its state, its result, its events and its log.
use vstd::prelude::*;

use crate::agent;
use crate::agent::{agent_callback_profile, resolve_agent_status, AgentRecord};
use crate::agent_events;
use crate::agent_events::progress_from_agent_event;
use crate::budget;
use crate::budget::worker_budget_status;
use crate::config::BudgetDefaultsConfig;
use crate::constants;
use crate::json;
use crate::models;
use crate::models::{
    clone_events, clone_opt_failure, clone_opt_texts, AgentEventDto, AgentProgressEnvelope,
    AgentResultResponse, AgentState, ThrottledWorkerStatus, ToolCallSummary, WorkerBudgetStatus,
    WorkerLogEntry,
};
use crate::monitoring;
use crate::monitoring::elapsed_millis;
use crate::text;
use crate::text::same_text;
use crate::text_search::list_has;
use crate::time_order;
use crate::time_order::time_order;
use crate::tools;
use crate::tools::{
    is_file_modifying_tool, parse_modified_paths, parse_tool_call_summary, parse_worker_log_entry,
};

verus! {

/// A list with one more text, unless it is there already.
pub open spec fn once(list: Seq<Seq<char>>, t: Seq<char>) -> Seq<Seq<char>> {
    if list.contains(t) {
        list
    } else {
        list.push(t)
    }
}

/// A list with more texts, each once.
pub open spec fn all_once(list: Seq<Seq<char>>, more: Seq<Seq<char>>) -> Seq<Seq<char>>
    decreases more.len(),
{
    if more.len() == 0 {
        list
    } else {
        once(all_once(list, more.drop_last()), more.last())
    }
}

/// The files that the events of an agent changed, each once, in the order of the first change.
pub open spec fn files_modified(events: Seq<models::EventView>) -> Seq<Seq<char>>
    decreases events.len(),
{
    if events.len() == 0 {
        Seq::empty()
    } else {
        let before = files_modified(events.drop_last());
        match tools::call_of(events.last()) {
            Some(call) => if tools::changes_files(call.0) {
                all_once(before, tools::modified_paths(events.last().params, call.0))
            } else {
                before
            },
            None => before,
        }
    }
}

/// The last tool that an agent used.
pub open spec fn last_call(events: Seq<models::EventView>) -> Option<
    (Seq<char>, Option<Seq<char>>, Option<Seq<char>>, u64),
>
    decreases events.len(),
{
    if events.len() == 0 {
        None
    } else {
        json::either(tools::call_of(events.last()), last_call(events.drop_last()))
    }
}

fn add_once(list: &mut Vec<String>, more: Vec<String>)
    ensures
        text::texts(final(list)@) == all_once(text::texts(old(list)@), text::texts(more@)),
{
    let ghost first = text::texts(list@);
    let ghost all = text::texts(more@);
    let mut i: usize = 0;
    assert(all.take(0) == Seq::<Seq<char>>::empty());
    while i < more.len()
        invariant
            i <= more@.len(),
            all == text::texts(more@),
            text::texts(list@) == all_once(first, all.take(i as int)),
        decreases more@.len() - i,
    {
        proof {
            assert(all.take(i + 1).drop_last() == all.take(i as int));
            assert(all.take(i + 1).last() == more@[i as int]@);
        }
        if !list_has(list, more[i].as_str()) {
            let t = more[i].clone();
            assert(text::texts(list@.push(t)) == text::texts(list@).push(t@));
            list.push(t);
        }
        i += 1;
    }
    assert(all.take(i as int) == all);
}

/// What an optional tool call says.
pub open spec fn opt_call(c: Option<ToolCallSummary>) -> Option<
    (Seq<char>, Option<Seq<char>>, Option<Seq<char>>, u64),
> {
    match c {
        Some(c) => Some(tools::call_view(c)),
        None => None,
    }
}

/// The files that the events of an agent changed, and the last tool that it used.
fn scan_events(events: &Vec<AgentEventDto>) -> (r: (Vec<String>, Option<ToolCallSummary>))
    ensures
        text::texts(r.0@) == files_modified(models::event_views(events@)),
        opt_call(r.1) == last_call(models::event_views(events@)),
{
    let ghost all = models::event_views(events@);
    let mut files: Vec<String> = Vec::new();
    let mut last: Option<ToolCallSummary> = None;
    let mut i: usize = 0;
    proof {
        assert(all.take(0) == Seq::<models::EventView>::empty());
        assert(text::texts(files@) == Seq::<Seq<char>>::empty());
    }
    while i < events.len()
        invariant
            i <= events@.len(),
            all == models::event_views(events@),
            text::texts(files@) == files_modified(all.take(i as int)),
            opt_call(last) == last_call(all.take(i as int)),
        decreases events@.len() - i,
    {
        proof {
            assert(all.take(i + 1).drop_last() == all.take(i as int));
            assert(all.take(i + 1).last() == events@[i as int]@);
        }
        if let Some(call) = parse_tool_call_summary(&events[i]) {
            if is_file_modifying_tool(call.tool.as_str()) {
                add_once(
                    &mut files,
                    parse_modified_paths(&events[i].params, call.tool.as_str()),
                );
            }
            last = Some(call);
        }
        i += 1;
    }
    assert(all.take(i as int) == all);
    (files, last)
}

/// Whether a budget status is there and tells what an agent has used up.
pub open spec fn opt_budget_status(
    s: Option<WorkerBudgetStatus>,
    b: agent::BudgetView,
    defaults: BudgetDefaultsConfig,
) -> bool {
    s matches Some(s) && budget::is_budget_status(s, b, defaults)
}

/// Whether a state is that of an agent.
pub open spec fn is_agent_state(
    s: AgentState,
    a: agent::AgentView,
    defaults: BudgetDefaultsConfig,
    now: u64,
) -> bool {
    &&& s.id == a.id
    &&& s.thread_id@ == a.thread_id
    &&& text::opt_text(s.active_turn_id) == a.active_turn_id
    &&& s.status@ == a.status
    &&& text::opt_text(s.callback_profile) == agent::profile_of(a.callback)
    &&& s.role@ == agent::role_name(a.role)
    &&& s.project_id == a.project_id
    &&& s.foreman_id == a.foreman_id
    &&& text::opt_text(s.error) == a.error
    &&& s.updated_at == a.updated_at
    &&& models::event_views(s.events@) == a.events
    &&& s.turns_completed == a.turns_completed
    &&& s.validation_retries == a.validation_retries
    &&& text::opt_text(s.last_validation_error) == a.last_validation_error
    &&& text::opt_text(s.worktree_path) == a.worktree_path
    &&& text::opt_text(s.branch) == a.branch_name
    &&& opt_call(s.last_tool_call) == last_call(a.events)
    &&& text::texts(s.files_modified@) == files_modified(a.events)
    &&& s.elapsed_ms == Some(monitoring::millis_between(a.created_at, now))
    &&& s.throttled == a.throttled
    &&& s.retry_at_ms == a.retry_at_ms
    &&& text::opt_text(s.throttle_reason) == a.throttle_reason
    &&& models::opt_failure(s.failure_report) == a.failure_report
    &&& opt_budget_status(s.budget, a.budget, defaults)
}

/// The state of an agent.
pub fn build_agent_state(agent: &AgentRecord, defaults: &BudgetDefaultsConfig, now: u64) -> (r:
    AgentState)
    ensures
        is_agent_state(r, agent@, *defaults, now),
{
    let (files_modified, last_tool_call) = scan_events(&agent.events);
    AgentState {
        id: agent.id,
        thread_id: agent.thread_id.clone(),
        active_turn_id: agent.active_turn_id.clone(),
        status: agent.status.clone(),
        callback_profile: agent_callback_profile(&agent.callback),
        role: agent.role.as_str().to_owned(),
        project_id: agent.project_id,
        foreman_id: agent.foreman_id,
        error: agent.error.clone(),
        updated_at: agent.updated_at,
        events: clone_events(&agent.events),
        turns_completed: agent.turns_completed,
        validation_retries: agent.validation_retries,
        last_validation_error: agent.last_validation_error.clone(),
        worktree_path: agent.worktree_path.clone(),
        branch: agent.branch_name.clone(),
        last_tool_call,
        files_modified,
        elapsed_ms: Some(elapsed_millis(agent.created_at, now)),
        throttled: agent.throttled,
        retry_at_ms: agent.retry_at_ms,
        throttle_reason: agent.throttle_reason.clone(),
        failure_report: clone_opt_failure(&agent.failure_report),
        budget: Some(worker_budget_status(agent, defaults)),
    }
}

/// Whether a response tells what an agent's work came to.
pub open spec fn is_result_of(
    r: AgentResultResponse,
    a: agent::AgentView,
    defaults: BudgetDefaultsConfig,
) -> bool {
    &&& r.agent_id == a.id
    &&& r.status@ == agent::effective_status(a)
    &&& text::opt_text(r.completion_method) == (match a.result {
        Some(x) => x.completion_method,
        None => None,
    })
    &&& text::opt_text(r.turn_id) == json::either(
        a.active_turn_id,
        match a.result {
            Some(x) => x.turn_id,
            None => None,
        },
    )
    &&& text::opt_text(r.final_text) == (match a.result {
        Some(x) => x.final_text,
        None => None,
    })
    &&& text::opt_text(r.summary) == (match a.result {
        Some(x) => x.summary,
        None => None,
    })
    &&& text::opt_texts(r.references) == (match a.result {
        Some(x) => x.references,
        None => None,
    })
    &&& r.completed_at == (match a.result {
        Some(x) => x.completed_at,
        None => None,
    })
    &&& r.event_id == (match a.result {
        Some(x) => x.event_id,
        None => None,
    })
    &&& text::opt_text(r.error) == json::either(
        match a.result {
            Some(x) => x.error,
            None => None,
        },
        a.error,
    )
    &&& r.event_count == a.events.len()
    &&& r.throttled == a.throttled
    &&& r.retry_at_ms == a.retry_at_ms
    &&& text::opt_text(r.throttle_reason) == a.throttle_reason
    &&& models::opt_failure(r.failure_report) == a.failure_report
    &&& opt_budget_status(r.budget, a.budget, defaults)
}

fn first_of_texts(a: Option<String>, b: &Option<String>) -> (r: Option<String>)
    ensures
        text::opt_text(r) == json::either(text::opt_text(a), text::opt_text(*b)),
{
    match a {
        Some(s) => Some(s),
        None => b.clone(),
    }
}

/// What an agent's work came to.
pub fn get_agent_result(agent: &AgentRecord, defaults: &BudgetDefaultsConfig) -> (r:
    AgentResultResponse)
    ensures
        is_result_of(r, agent@, *defaults),
{
    let mut r = AgentResultResponse {
        agent_id: agent.id,
        status: resolve_agent_status(agent),
        completion_method: None,
        turn_id: agent.active_turn_id.clone(),
        final_text: None,
        summary: None,
        references: None,
        completed_at: None,
        event_id: None,
        error: agent.error.clone(),
        event_count: agent.events.len(),
        throttled: agent.throttled,
        retry_at_ms: agent.retry_at_ms,
        throttle_reason: agent.throttle_reason.clone(),
        failure_report: clone_opt_failure(&agent.failure_report),
        budget: Some(worker_budget_status(agent, defaults)),
    };
    if let Some(result) = &agent.result {
        r.completion_method = result.completion_method.clone();
        r.turn_id = first_of_texts(agent.active_turn_id.clone(), &result.turn_id);
        r.final_text = result.final_text.clone();
        r.summary = result.summary.clone();
        r.references = clone_opt_texts(&result.references);
        r.completed_at = result.completed_at;
        r.event_id = result.event_id;
        r.error = first_of_texts(result.error.clone(), &agent.error);
    }
    assert(models::event_views(agent.events@).len() == agent.events@.len());
    r
}

/// Whether a response tells of an agent of which nothing is known.
pub open spec fn is_unknown(
    r: AgentResultResponse,
    agent_id: u128,
    status: Seq<char>,
    error: Seq<char>,
) -> bool {
    &&& r.agent_id == agent_id
    &&& r.status@ == status
    &&& r.completion_method is None
    &&& r.turn_id is None
    &&& r.final_text is None
    &&& r.summary is None
    &&& r.references is None
    &&& r.completed_at is None
    &&& r.event_id is None
    &&& text::opt_text(r.error) == Some(error)
    &&& r.event_count == 0
    &&& !r.throttled
    &&& r.retry_at_ms is None
    &&& r.throttle_reason is None
    &&& r.failure_report is None
    &&& r.budget is None
}

/// What is told of an agent of which nothing is known.
pub fn unknown_result(agent_id: u128, status: &str, error: &str) -> (r: AgentResultResponse)
    ensures
        is_unknown(r, agent_id, status@, error@),
{
    AgentResultResponse {
        agent_id,
        status: status.to_owned(),
        completion_method: None,
        turn_id: None,
        final_text: None,
        summary: None,
        references: None,
        completed_at: None,
        event_id: None,
        error: Some(error.to_owned()),
        event_count: 0,
        throttled: false,
        retry_at_ms: None,
        throttle_reason: None,
        failure_report: None,
        budget: None,
    }
}

/// Whether there is nothing more to wait for.
pub open spec fn is_done(r: AgentResultResponse) -> bool {
    r.completed_at is Some || (r.status@ != constants::AGENT_STATUS_RUNNING@ && r.turn_id is None)
        || r.status@ == constants::AGENT_STATUS_ORPHANED@
}

/// Whether there is nothing more to wait for.
pub fn is_wait_complete(r: &AgentResultResponse) -> (b: bool)
    ensures
        b == is_done(*r),
{
    r.completed_at.is_some() || (!same_text(r.status.as_str(), constants::AGENT_STATUS_RUNNING)
        && r.turn_id.is_none()) || same_text(r.status.as_str(), constants::AGENT_STATUS_ORPHANED)
}

/// What comes next while something is waited for.
#[derive(Debug, Clone, Copy, PartialEq, Eq, Structural)]
pub enum WaitStep {
    TimedOut,
    Sleep(u64),
}

/// When a wait ends. Without a time limit it does not.
pub fn wait_deadline(start_ms: u64, timeout_ms: Option<u64>) -> (r: Option<u64>)
    ensures
        r == (match timeout_ms {
            Some(t) => if t > 0 {
                Some(crate::governor::capped_sum(start_ms as int, t as int))
            } else {
                None
            },
            None => None,
        }),
{
    match timeout_ms {
        Some(t) => if t > 0 {
            Some(start_ms.saturating_add(t))
        } else {
            None
        },
        None => None,
    }
}

/// What comes next while something is waited for: the wait is over, or it is looked at again
/// after the interval, and no later than at the end of the wait.
pub fn wait_step(deadline: Option<u64>, now_ms: u64, poll_ms: Option<u64>) -> (r: WaitStep)
    ensures
        ({
            let interval = match poll_ms {
                Some(p) => p,
                None => constants::DEFAULT_WAIT_POLL_MS,
            };
            r == (match deadline {
                Some(d) => if now_ms >= d {
                    WaitStep::TimedOut
                } else if d - now_ms < interval {
                    WaitStep::Sleep((d - now_ms) as u64)
                } else {
                    WaitStep::Sleep(interval)
                },
                None => WaitStep::Sleep(interval),
            })
        }),
{
    let interval: u64 = match poll_ms {
        Some(p) => p,
        None => constants::DEFAULT_WAIT_POLL_MS,
    };
    match deadline {
        Some(d) => if now_ms >= d {
            WaitStep::TimedOut
        } else if d - now_ms < interval {
            WaitStep::Sleep(d - now_ms)
        } else {
            WaitStep::Sleep(interval)
        },
        None => WaitStep::Sleep(interval),
    }
}

/// The last elements of a sequence: all of them without a limit, else no more than that.
pub open spec fn tail_of<T>(s: Seq<T>, limit: Option<usize>) -> Seq<T> {
    match limit {
        Some(n) => if s.len() > n {
            s.skip(s.len() - n)
        } else {
            s
        },
        None => s,
    }
}

/// The last events of an agent.
pub fn get_agent_events(agent: &AgentRecord, tail: Option<usize>) -> (r: Vec<AgentEventDto>)
    ensures
        models::event_views(r@) == tail_of(agent@.events, tail),
{
    let n: usize = agent.events.len();
    let first: usize = match tail {
        Some(limit) => if n > limit {
            n - limit
        } else {
            0
        },
        None => 0,
    };
    let ghost all = agent@.events;
    let mut r: Vec<AgentEventDto> = Vec::new();
    let mut i: usize = first;
    while i < n
        invariant
            first <= i <= n,
            n == agent.events@.len(),
            all == models::event_views(agent.events@),
            r@.len() == i - first,
            forall|k: int| 0 <= k < r@.len() ==> (#[trigger] r@[k])@ == all[first + k],
        decreases n - i,
    {
        r.push(agent.events[i].clone());
        i += 1;
    }
    assert(models::event_views(r@) == all.skip(first as int));
    assert(all.skip(0) == all);
    r
}

/// A line of a log.
pub struct LogView {
    pub turn: u32,
    pub call: (Seq<char>, Option<Seq<char>>, Option<Seq<char>>, u64),
    pub exit_code: Option<i32>,
    pub stderr: Option<Seq<char>>,
    pub bytes: Option<usize>,
}

/// What a line of a log says.
pub open spec fn log_view(e: WorkerLogEntry) -> LogView {
    LogView {
        turn: e.turn,
        call: (e.tool@, text::opt_text(e.command), text::opt_text(e.path), e.at),
        exit_code: e.exit_code,
        stderr: text::opt_text(e.stderr),
        bytes: e.bytes,
    }
}

/// What the lines of a log say.
pub open spec fn log_views(log: Seq<WorkerLogEntry>) -> Seq<LogView> {
    log.map_values(|e: WorkerLogEntry| log_view(e))
}

/// How many turns the events started.
pub open spec fn turns_in(events: Seq<models::EventView>) -> u32
    decreases events.len(),
{
    if events.len() == 0 {
        0
    } else {
        let before = turns_in(events.drop_last());
        if events.last().method == constants::EVENT_METHOD_TURN_STARTED@ {
            crate::governor::one_more(before)
        } else {
            before
        }
    }
}

/// The log of the tools that an agent used, each with the turn in which it was, and only those
/// of one turn where one is asked for.
pub open spec fn log_of(events: Seq<models::EventView>, turn_filter: Option<u32>) -> Seq<LogView>
    decreases events.len(),
{
    if events.len() == 0 {
        Seq::empty()
    } else {
        let before = log_of(events.drop_last(), turn_filter);
        let turn = turns_in(events);
        match tools::call_of(events.last()) {
            Some(call) => if turn_filter is None || turn_filter == Some(turn) {
                before.push(
                    LogView {
                        turn,
                        call,
                        exit_code: tools::exit_code_of(events.last().params),
                        stderr: tools::stderr_of(events.last().params),
                        bytes: tools::bytes_of(events.last().params),
                    },
                )
            } else {
                before
            },
            None => before,
        }
    }
}

/// The log of the tools that an agent used.
fn collect_log(events: &Vec<AgentEventDto>, turn_filter: Option<u32>) -> (r: Vec<WorkerLogEntry>)
    ensures
        log_views(r@) == log_of(models::event_views(events@), turn_filter),
{
    let ghost all = models::event_views(events@);
    let mut log: Vec<WorkerLogEntry> = Vec::new();
    let mut turn: u32 = 0;
    let mut i: usize = 0;
    proof {
        assert(all.take(0) == Seq::<models::EventView>::empty());
        assert(log_views(log@) == Seq::<LogView>::empty());
    }
    while i < events.len()
        invariant
            i <= events@.len(),
            all == models::event_views(events@),
            turn == turns_in(all.take(i as int)),
            log_views(log@) == log_of(all.take(i as int), turn_filter),
        decreases events@.len() - i,
    {
        proof {
            assert(all.take(i + 1).drop_last() == all.take(i as int));
            assert(all.take(i + 1).last() == events@[i as int]@);
        }
        if same_text(events[i].method.as_str(), constants::EVENT_METHOD_TURN_STARTED) {
            turn = turn.saturating_add(1);
        }
        if let Some(entry) = parse_worker_log_entry(&events[i], turn) {
            let wanted = match turn_filter {
                Some(t) => t == turn,
                None => true,
            };
            if wanted {
                assert(log_views(log@.push(entry)) == log_views(log@).push(log_view(entry)));
                log.push(entry);
            }
        }
        i += 1;
    }
    assert(all.take(i as int) == all);
    log
}

/// The last lines of the log of the tools that an agent used.
pub fn get_agent_logs(agent: &AgentRecord, tail: Option<usize>, turn_filter: Option<u32>) -> (r: Vec<
    WorkerLogEntry,
>)
    ensures
        log_views(r@) == tail_of(log_of(agent@.events, turn_filter), tail),
{
    let log = collect_log(&agent.events, turn_filter);
    let n: usize = log.len();
    assert(log_views(log@).len() == n);
    let first: usize = match tail {
        Some(limit) => if n > limit {
            n - limit
        } else {
            return log;
        },
        None => {
            return log;
        },
    };
    let ghost all = log_views(log@);
    let mut r: Vec<WorkerLogEntry> = Vec::new();
    let mut i: usize = first;
    while i < n
        invariant
            first <= i <= n,
            n == log@.len(),
            all == log_views(log@),
            r@.len() == i - first,
            forall|k: int| 0 <= k < r@.len() ==> log_view(#[trigger] r@[k]) == all[first + k],
        decreases n - i,
    {
        let e = &log[i];
        r.push(
            WorkerLogEntry {
                turn: e.turn,
                tool: e.tool.clone(),
                command: e.command.clone(),
                path: e.path.clone(),
                exit_code: e.exit_code,
                stderr: e.stderr.clone(),
                bytes: e.bytes,
                at: e.at,
            },
        );
        i += 1;
    }
    assert(log_views(r@) == all.skip(first as int));
    r
}

/// The events from a time on.
pub open spec fn since(events: Seq<models::EventView>, min_ts: u64) -> Seq<models::EventView>
    decreases events.len(),
{
    if events.len() == 0 {
        Seq::empty()
    } else if events.last().ts >= min_ts {
        since(events.drop_last(), min_ts).push(events.last())
    } else {
        since(events.drop_last(), min_ts)
    }
}

/// The time from which on something is asked for.
pub open spec fn from_time(since_ts: Option<u64>) -> u64 {
    match since_ts {
        Some(t) => t,
        None => 0,
    }
}

/// The events of an agent from a time on.
pub fn events_since(events: &Vec<AgentEventDto>, since_ts: Option<u64>) -> (r: Vec<AgentEventDto>)
    ensures
        models::event_views(r@) == since(models::event_views(events@), from_time(since_ts)),
{
    let min_ts: u64 = match since_ts {
        Some(t) => t,
        None => 0,
    };
    let ghost all = models::event_views(events@);
    let mut r: Vec<AgentEventDto> = Vec::new();
    let mut i: usize = 0;
    proof {
        assert(all.take(0) == Seq::<models::EventView>::empty());
        assert(models::event_views(r@) == Seq::<models::EventView>::empty());
    }
    while i < events.len()
        invariant
            i <= events@.len(),
            all == models::event_views(events@),
            models::event_views(r@) == since(all.take(i as int), min_ts),
        decreases events@.len() - i,
    {
        proof {
            assert(all.take(i + 1).drop_last() == all.take(i as int));
            assert(all.take(i + 1).last() == events@[i as int]@);
        }
        if events[i].ts >= min_ts {
            let e = events[i].clone();
            assert(models::event_views(r@.push(e)) == models::event_views(r@).push(e@));
            r.push(e);
        }
        i += 1;
    }
    assert(all.take(i as int) == all);
    r
}

/// The times of the events.
pub open spec fn times_of(events: Seq<models::EventView>) -> Seq<u64> {
    events.map_values(|e: models::EventView| e.ts)
}

/// Whether what is told is what is told of events of an agent, in the order of their times.
pub open spec fn tells_in_order(
    r: Seq<AgentProgressEnvelope>,
    a: agent::AgentView,
    events: Seq<models::EventView>,
) -> bool {
    exists|order: Seq<usize>| #[trigger]
        time_order::is_time_order(order, times_of(events)) && r.len() == events.len() && forall|
            k: int,
        |
            0 <= k < r.len() ==> (#[trigger] r[k])@ == agent_events::event_progress(
                a,
                events[order[k] as int],
            )
}

/// What is told of the events of an agent from a time on, in the order of their times.
pub fn get_agent_progress_backlog(agent: &AgentRecord, since_ts: Option<u64>) -> (r: Vec<
    AgentProgressEnvelope,
>)
    ensures
        tells_in_order(r@, agent@, since(agent@.events, from_time(since_ts))),
{
    let events = events_since(&agent.events, since_ts);
    let ghost views = models::event_views(events@);
    let mut times: Vec<u64> = Vec::new();
    let mut i: usize = 0;
    while i < events.len()
        invariant
            i <= events@.len(),
            views == models::event_views(events@),
            times@.len() == i,
            forall|k: int| 0 <= k < i ==> (#[trigger] times@[k]) == views[k].ts,
        decreases events@.len() - i,
    {
        times.push(events[i].ts);
        i += 1;
    }
    assert(times@ == times_of(views));
    let order = time_order(&times);
    let mut r: Vec<AgentProgressEnvelope> = Vec::new();
    let mut k: usize = 0;
    while k < order.len()
        invariant
            k <= order@.len(),
            views == models::event_views(events@),
            time_order::is_time_order(order@, times_of(views)),
            r@.len() == k,
            forall|j: int|
                0 <= j < k ==> (#[trigger] r@[j])@ == agent_events::event_progress(
                    agent@,
                    views[order@[j] as int],
                ),
        decreases order@.len() - k,
    {
        let at: usize = order[k];
        assert(at < times_of(views).len());
        r.push(progress_from_agent_event(agent, &events[at]));
        k += 1;
    }
    assert(time_order::is_time_order(order@, times_of(views)));
    r
}

/// A worker that has to wait.
pub open spec fn throttle_view(t: ThrottledWorkerStatus) -> (u128, Option<u64>, Option<Seq<char>>) {
    (t.agent_id, t.retry_at_ms, text::opt_text(t.reason))
}

/// The workers that have to wait.
pub open spec fn throttle_views(v: Seq<ThrottledWorkerStatus>) -> Seq<
    (u128, Option<u64>, Option<Seq<char>>),
> {
    v.map_values(|t: ThrottledWorkerStatus| throttle_view(t))
}

/// The agents that have to wait, in order.
pub open spec fn waiting(agents: Seq<agent::AgentView>) -> Seq<(u128, Option<u64>, Option<Seq<char>>)>
    decreases agents.len(),
{
    if agents.len() == 0 {
        Seq::empty()
    } else {
        let a = agents.last();
        if a.throttled || a.status == constants::AGENT_STATUS_THROTTLED@ {
            waiting(agents.drop_last()).push((a.id, a.retry_at_ms, a.throttle_reason))
        } else {
            waiting(agents.drop_last())
        }
    }
}

/// What is told of an agent that has to wait.
pub fn throttle_status(agent: &AgentRecord) -> (r: ThrottledWorkerStatus)
    ensures
        throttle_view(r) == (agent@.id, agent@.retry_at_ms, agent@.throttle_reason),
{
    ThrottledWorkerStatus {
        agent_id: agent.id,
        retry_at_ms: agent.retry_at_ms,
        reason: agent.throttle_reason.clone(),
    }
}

/// The agents that have to wait, in order.
pub fn list_throttled_workers(agents: &Vec<AgentRecord>) -> (r: Vec<ThrottledWorkerStatus>)
    ensures
        throttle_views(r@) == waiting(monitoring::agent_views(agents@)),
{
    let ghost all = monitoring::agent_views(agents@);
    let mut r: Vec<ThrottledWorkerStatus> = Vec::new();
    let mut i: usize = 0;
    proof {
        assert(all.take(0) == Seq::<agent::AgentView>::empty());
        assert(throttle_views(r@) == Seq::<(u128, Option<u64>, Option<Seq<char>>)>::empty());
    }
    while i < agents.len()
        invariant
            i <= agents@.len(),
            all == monitoring::agent_views(agents@),
            throttle_views(r@) == waiting(all.take(i as int)),
        decreases agents@.len() - i,
    {
        proof {
            assert(all.take(i + 1).drop_last() == all.take(i as int));
            assert(all.take(i + 1).last() == agents@[i as int]@);
        }
        let agent = &agents[i];
        if agent.throttled || same_text(agent.status.as_str(), constants::AGENT_STATUS_THROTTLED) {
            let t = throttle_status(agent);
            assert(throttle_views(r@.push(t)) == throttle_views(r@).push(throttle_view(t)));
            r.push(t);
        }
        i += 1;
    }
    assert(all.take(i as int) == all);
    r
}

/// No file is named twice among those that an agent changed.
pub proof fn law_modified_files_are_named_once(events: Seq<models::EventView>)
    ensures
        files_modified(events).no_duplicates(),
    decreases events.len(),
{
    if events.len() > 0 {
        law_modified_files_are_named_once(events.drop_last());
        if let Some(call) = tools::call_of(events.last()) {
            lemma_all_once(
                files_modified(events.drop_last()),
                tools::modified_paths(events.last().params, call.0),
            );
        }
    }
}

proof fn lemma_all_once(list: Seq<Seq<char>>, more: Seq<Seq<char>>)
    requires
        list.no_duplicates(),
    ensures
        all_once(list, more).no_duplicates(),
    decreases more.len(),
{
    if more.len() > 0 {
        lemma_all_once(list, more.drop_last());
    }
}

/// The result that is told of an agent is its own: that of its last work where there is one, with
/// the turn it is in now before the one it was in, and the error of the work before its own.
pub proof fn law_results_tell_of_the_agent(
    r: AgentResultResponse,
    a: agent::AgentView,
    defaults: BudgetDefaultsConfig,
)
    requires
        is_result_of(r, a, defaults),
    ensures
        r.agent_id == a.id,
        a.result is None ==> r.status@ == a.status && r.final_text is None && r.completed_at is None
            && text::opt_text(r.error) == a.error && text::opt_text(r.turn_id) == a.active_turn_id,
        a.result is Some && a.result->0.completed_at is Some ==> r.status@ == a.result->0.status
            && r.completed_at == a.result->0.completed_at && is_done(r),
        a.result is Some ==> text::opt_text(r.final_text) == a.result->0.final_text
            && text::opt_text(r.summary) == a.result->0.summary,
        a.result is Some && a.result->0.error is Some ==> text::opt_text(r.error)
            == a.result->0.error,
        a.result is Some && a.result->0.error is None ==> text::opt_text(r.error) == a.error,
        a.active_turn_id is Some ==> text::opt_text(r.turn_id) == a.active_turn_id,
        r.event_count == a.events.len(),
{
}

/// One waits for an agent while it is in a turn that is not complete, and no longer once the turn
/// is complete, the agent is orphaned, or it neither runs nor has a turn.
pub proof fn law_waiting_is_for_what_goes_on(r: AgentResultResponse)
    ensures
        r.completed_at is Some ==> is_done(r),
        r.status@ == "orphaned"@ ==> is_done(r),
        r.status@ == "running"@ && r.completed_at is None ==> !is_done(r),
        r.status@ == "idle"@ && r.turn_id is None ==> is_done(r),
        r.status@ != "orphaned"@ && r.turn_id is Some && r.completed_at is None ==> !is_done(r),
{
    reveal_strlit("orphaned");
    reveal_strlit("running");
    reveal_strlit("idle");
    assert("orphaned"@.len() == 8 && "running"@.len() == 7 && "idle"@.len() == 4);
}

/// A limit leaves the last elements, in order, and no more of them than it allows.
pub proof fn law_limits_keep_the_last<T>(s: Seq<T>, limit: usize)
    ensures
        tail_of(s, None) == s,
        tail_of(s, Some(limit)).len() == (if s.len() < limit { s.len() as int } else {
            limit as int
        }),
        forall|i: int|
            0 <= i < tail_of(s, Some(limit)).len() ==> #[trigger] tail_of(s, Some(limit))[i]
                == s[s.len() - tail_of(s, Some(limit)).len() + i],
{
}

/// What came from a time on is just the events that are no older, in their order.
pub proof fn law_events_from_a_time_on(events: Seq<models::EventView>, min_ts: u64)
    ensures
        since(events, min_ts) == events.filter(|e: models::EventView| e.ts >= min_ts),
        from_time(None) == 0,
    decreases events.len(),
{
    reveal(Seq::filter);
    if events.len() > 0 {
        law_events_from_a_time_on(events.drop_last(), min_ts);
    }
}

/// The turns of an agent are counted by the events that say that one started.
pub proof fn law_turns_are_counted_by_their_start(events: Seq<models::EventView>)
    requires
        events.len() < u32::MAX,
    ensures
        turns_in(events) == events.filter(
            |e: models::EventView| e.method == "turn/started"@,
        ).len(),
        turns_in(events) <= events.len(),
    decreases events.len(),
{
    reveal(Seq::filter);
    if events.len() > 0 {
        law_turns_are_counted_by_their_start(events.drop_last());
    }
}

/// The log of one turn is the part of the whole log that is of this turn, and the whole log has a
/// line for each tool that was used, with the turn it was used in.
pub proof fn law_log_of_a_turn_is_part_of_the_log(events: Seq<models::EventView>, turn: u32)
    ensures
        log_of(events, Some(turn)) == log_of(events, None).filter(|l: LogView| l.turn == turn),
        log_of(events, None).len() == events.filter(
            |e: models::EventView| tools::call_of(e) is Some,
        ).len(),
    decreases events.len(),
{
    reveal(Seq::filter);
    if events.len() > 0 {
        let rest = events.drop_last();
        law_log_of_a_turn_is_part_of_the_log(rest, turn);
        let all = log_of(events, None);
        if tools::call_of(events.last()) is Some {
            assert(all.drop_last() == log_of(rest, None));
            assert(all.last().turn == turns_in(events));
        }
    }
}

/// What the log says last of a tool is said with the turn that goes on, and the call of the event.
pub proof fn law_log_grows_by_the_tools_used(
    events: Seq<models::EventView>,
    e: models::EventView,
)
    ensures
        tools::call_of(e) is None ==> log_of(events.push(e), None) == log_of(events, None)
            && last_call(events.push(e)) == last_call(events),
        tools::call_of(e) is Some ==> last_call(events.push(e)) == tools::call_of(e) && log_of(
            events.push(e),
            None,
        ).len() == log_of(events, None).len() + 1 && log_of(events.push(e), None).last().call
            == tools::call_of(e)->0 && log_of(events.push(e), None).last().turn == turns_in(
            events.push(e),
        ) && log_of(events.push(e), None).drop_last() == log_of(events, None),
{
    let more = events.push(e);
    assert(more.drop_last() == events);
    assert(more.last() == e);
}

proof fn lemma_all_once_has(list: Seq<Seq<char>>, more: Seq<Seq<char>>, t: Seq<char>)
    ensures
        all_once(list, more).contains(t) <==> list.contains(t) || more.contains(t),
    decreases more.len(),
{
    if more.len() > 0 {
        let rest = more.drop_last();
        let before = all_once(list, rest);
        lemma_all_once_has(list, rest, t);
        assert(more.contains(t) <==> rest.contains(t) || more.last() == t) by {
            if more.contains(t) {
                let i = choose|i: int| 0 <= i < more.len() && more[i] == t;
                if i < rest.len() {
                    assert(rest[i] == t);
                }
            }
            if rest.contains(t) {
                let i = choose|i: int| 0 <= i < rest.len() && rest[i] == t;
                assert(more[i] == t);
            }
            if more.last() == t {
                assert(more[more.len() - 1] == t);
            }
        }
        if !before.contains(more.last()) {
            let after = before.push(more.last());
            assert(after[after.len() - 1] == more.last());
            if before.contains(t) {
                let i = choose|i: int| 0 <= i < before.len() && before[i] == t;
                assert(after[i] == t);
            }
            if after.contains(t) && t != more.last() {
                let i = choose|i: int| 0 <= i < after.len() && after[i] == t;
                assert(before[i] == t);
            }
        }
    }
}

/// A file counts as changed exactly where a tool that changes files named it.
pub proof fn law_files_count_as_changed_by_tools(
    events: Seq<models::EventView>,
    e: models::EventView,
    path: Seq<char>,
)
    ensures
        files_modified(Seq::<models::EventView>::empty()).len() == 0,
        files_modified(events.push(e)).contains(path) <==> files_modified(events).contains(path)
            || (tools::call_of(e) is Some && tools::changes_files((tools::call_of(e)->0).0)
            && tools::modified_paths(e.params, (tools::call_of(e)->0).0).contains(path)),
{
    let more = events.push(e);
    assert(more.drop_last() == events);
    assert(more.last() == e);
    if tools::call_of(e) is Some {
        lemma_all_once_has(
            files_modified(events),
            tools::modified_paths(e.params, (tools::call_of(e)->0).0),
            path,
        );
    }
}

/// The agents that are listed as waiting are those that are held back, and no other, each once and
/// in order.
pub proof fn law_held_agents_are_listed(agents: Seq<agent::AgentView>)
    ensures
        waiting(agents) == agents.filter(
            |a: agent::AgentView| a.throttled || a.status == "throttled"@,
        ).map_values(|a: agent::AgentView| (a.id, a.retry_at_ms, a.throttle_reason)),
    decreases agents.len(),
{
    reveal(Seq::filter);
    let held = |a: agent::AgentView| a.throttled || a.status == "throttled"@;
    let told = |a: agent::AgentView| (a.id, a.retry_at_ms, a.throttle_reason);
    if agents.len() > 0 {
        let rest = agents.drop_last();
        law_held_agents_are_listed(rest);
        if held(agents.last()) {
            assert(agents.filter(held) == rest.filter(held).push(agents.last()));
            assert(agents.filter(held).map_values(told) == rest.filter(held).map_values(told).push(
                told(agents.last()),
            ));
        }
    } else {
        assert(agents.filter(held).map_values(told) == waiting(agents));
    }
}

/// Of an agent that is not known only that is told, with its identifier and the error.
pub proof fn law_unknown_agents_are_told_as_such(
    r: AgentResultResponse,
    agent_id: u128,
    status: Seq<char>,
    error: Seq<char>,
)
    requires
        is_unknown(r, agent_id, status, error),
    ensures
        r.agent_id == agent_id && r.status@ == status,
        r.error is Some && r.error->0@ == error,
        r.completed_at is None && r.completion_method is None && r.turn_id is None,
        r.final_text is None && r.event_count == 0 && !r.throttled,
{
}

/// What is told of the events of an agent is every one of them, once, with nothing older behind.
pub proof fn law_events_are_told_in_order(
    r: Seq<AgentProgressEnvelope>,
    a: agent::AgentView,
    events: Seq<models::EventView>,
    i: int,
    k: int,
)
    requires
        tells_in_order(r, a, events),
        0 <= i < k < r.len(),
    ensures
        r.len() == events.len(),
        r[i]@.ts <= r[k]@.ts,
        r[i]@.agent_id == a.id,
        exists|n: int| 0 <= n < events.len() && (#[trigger] events[n]).method == r[i]@.event,
{
    let order = choose|order: Seq<usize>| #[trigger]
        time_order::is_time_order(order, times_of(events)) && r.len() == events.len() && forall|
            n: int,
        |
            0 <= n < r.len() ==> (#[trigger] r[n])@ == agent_events::event_progress(
                a,
                events[order[n] as int],
            );
    time_order::law_older_comes_first(order, times_of(events), i, k);
    assert(r[i]@ == agent_events::event_progress(a, events[order[i] as int]));
    assert(r[k]@ == agent_events::event_progress(a, events[order[k] as int]));
    assert(times_of(events)[order[i] as int] == events[order[i] as int].ts);
    assert(times_of(events)[order[k] as int] == events[order[k] as int].ts);
}

} // verus!

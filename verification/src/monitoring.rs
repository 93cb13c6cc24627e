//! Workers that no longer get on, and how they are started again.
use vstd::prelude::*;

use crate::agent;
use crate::agent::{AgentRecord, AgentRole};
use crate::config::WorkerMonitoringConfig;
use crate::constants;
use crate::failure;
use crate::failure::update_failure_report;
use crate::governor;
use crate::models;
use crate::models::{AgentResult, FailureClass};
use crate::text;
use crate::text::same_text;
use crate::text_search::decimal_text;

verus! {

/// How many milliseconds lie between two times in seconds, held at the bounds of `u64`.
pub open spec fn millis_between(earlier: u64, later: u64) -> u64 {
    if later <= earlier {
        0
    } else if (later - earlier) * 1000 <= u64::MAX {
        ((later - earlier) * 1000) as u64
    } else {
        u64::MAX
    }
}

/// How many milliseconds lie between two times in seconds.
pub fn elapsed_millis(earlier: u64, later: u64) -> (r: u64)
    ensures
        r == millis_between(earlier, later),
{
    let seconds: u64 = later.saturating_sub(earlier);
    if seconds <= u64::MAX / constants::MILLISECONDS_PER_SECOND {
        seconds * constants::MILLISECONDS_PER_SECOND
    } else {
        u64::MAX
    }
}

/// Whether an agent has stalled: a worker in a turn, with a prompt, of which nothing has been
/// heard for more than the time.
pub open spec fn is_stalled(a: agent::AgentView, now: u64, inactivity_timeout_ms: u64) -> bool {
    &&& a.role == AgentRole::Worker
    &&& a.status == constants::AGENT_STATUS_RUNNING@
    &&& a.prompt is Some
    &&& millis_between(a.updated_at, now) > inactivity_timeout_ms
    &&& a.active_turn_id is Some
}

/// The records of the agents.
pub open spec fn agent_views(agents: Seq<AgentRecord>) -> Seq<agent::AgentView> {
    agents.map_values(|a: AgentRecord| a@)
}

/// The identifiers of the agents that have stalled, in order.
pub open spec fn stalled_ids(
    agents: Seq<agent::AgentView>,
    now: u64,
    inactivity_timeout_ms: u64,
) -> Seq<u128>
    decreases agents.len(),
{
    if agents.len() == 0 {
        Seq::empty()
    } else {
        let before = stalled_ids(agents.drop_last(), now, inactivity_timeout_ms);
        if is_stalled(agents.last(), now, inactivity_timeout_ms) {
            before.push(agents.last().id)
        } else {
            before
        }
    }
}

fn has_stalled(agent: &AgentRecord, now: u64, inactivity_timeout_ms: u64) -> (r: bool)
    ensures
        r == is_stalled(agent@, now, inactivity_timeout_ms),
{
    agent.role == AgentRole::Worker && same_text(
        agent.status.as_str(),
        constants::AGENT_STATUS_RUNNING,
    ) && agent.prompt.is_some() && elapsed_millis(agent.updated_at, now) > inactivity_timeout_ms
        && agent.active_turn_id.is_some()
}

/// The identifiers of the agents that have stalled, in order.
pub fn find_stalled_workers(agents: &Vec<AgentRecord>, now: u64, inactivity_timeout_ms: u64) -> (r: Vec<
    u128,
>)
    ensures
        r@ == stalled_ids(agent_views(agents@), now, inactivity_timeout_ms),
{
    let ghost all = agent_views(agents@);
    let mut found: Vec<u128> = Vec::new();
    let mut i: usize = 0;
    assert(stalled_ids(all.take(0), now, inactivity_timeout_ms) == Seq::<u128>::empty());
    while i < agents.len()
        invariant
            i <= agents@.len(),
            all == agent_views(agents@),
            found@ == stalled_ids(all.take(i as int), now, inactivity_timeout_ms),
        decreases agents@.len() - i,
    {
        proof {
            let part = all.take(i + 1);
            assert(part.drop_last() == all.take(i as int));
            assert(part.last() == agents@[i as int]@);
        }
        if has_stalled(&agents[i], now, inactivity_timeout_ms) {
            found.push(agents[i].id);
        }
        i += 1;
    }
    assert(all.take(i as int) == all);
    found
}

/// What is done about a worker that has stalled.
#[derive(Debug, Clone)]
pub enum RestartStep {
    /// It is left alone.
    Skip,
    /// It has been started again often enough, and has failed.
    GiveUp { project_id: Option<u128>, job_id: Option<u128> },
    /// Its turn is interrupted and its prompt is sent once more.
    Restart {
        project_id: Option<u128>,
        job_id: Option<u128>,
        thread_id: String,
        prompt: String,
        active_turn_id: Option<String>,
    },
}

/// Whether a worker that has stalled can be started again or given up.
pub open spec fn is_candidate(a: agent::AgentView) -> bool {
    a.status == constants::AGENT_STATUS_RUNNING@ && (a.prompt matches Some(p) && p.len() > 0)
}

/// That a worker has stalled.
pub open spec fn stall_message(inactivity_timeout_ms: u64) -> Seq<char> {
    "worker stalled for "@ + text::decimal(inactivity_timeout_ms as nat) + " ms without progress"@
}

/// A worker that is given up.
pub open spec fn after_giving_up(
    a: agent::AgentView,
    inactivity_timeout_ms: u64,
    ts: u64,
) -> agent::AgentView {
    agent::AgentView {
        status: constants::AGENT_STATUS_FAILED@,
        updated_at: ts,
        result: Some(
            models::ResultView {
                agent_id: a.id,
                status: constants::AGENT_STATUS_ABORTED@,
                completion_method: Some(constants::EVENT_METHOD_TURN_ABORTED@),
                turn_id: a.active_turn_id,
                final_text: None,
                summary: Some("worker stalled and exceeded restart budget"@),
                references: None,
                completed_at: Some(ts),
                event_id: None,
                error: Some(stall_message(inactivity_timeout_ms)),
            },
        ),
        error: Some("worker monitoring restart budget exceeded"@),
        failure_report: Some(
            failure::next_report(
                a.failure_report,
                FailureClass::Timeout,
                "worker monitoring restart budget exceeded"@,
                Some(stall_message(inactivity_timeout_ms)),
                false,
                ts,
            ),
        ),
        ..a
    }
}

/// A worker that is about to start again.
pub open spec fn while_restarting(a: agent::AgentView, ts: u64) -> agent::AgentView {
    agent::AgentView {
        status: constants::AGENT_STATUS_RESTARTING@,
        updated_at: ts,
        restart_attempts: governor::one_more(a.restart_attempts),
        error: None,
        ..a
    }
}

/// Starts to start a stalled worker again, or gives it up where that was done often enough.
pub fn begin_restart(
    agent: &mut AgentRecord,
    inactivity_timeout_ms: u64,
    max_restarts: u32,
    ts: u64,
) -> (r: RestartStep)
    ensures
        final(agent)@ == (if !is_candidate(old(agent)@) {
            old(agent)@
        } else if old(agent)@.restart_attempts >= max_restarts {
            after_giving_up(old(agent)@, inactivity_timeout_ms, ts)
        } else {
            while_restarting(old(agent)@, ts)
        }),
        match r {
            RestartStep::Skip => !is_candidate(old(agent)@),
            RestartStep::GiveUp { project_id, job_id } => {
                &&& is_candidate(old(agent)@)
                &&& old(agent)@.restart_attempts >= max_restarts
                &&& project_id == old(agent)@.project_id
                &&& job_id == old(agent)@.job_id
            },
            RestartStep::Restart { project_id, job_id, thread_id, prompt, active_turn_id } => {
                &&& is_candidate(old(agent)@)
                &&& old(agent)@.restart_attempts < max_restarts
                &&& project_id == old(agent)@.project_id
                &&& job_id == old(agent)@.job_id
                &&& thread_id@ == old(agent)@.thread_id
                &&& Some(prompt@) == old(agent)@.prompt
                &&& text::opt_text(active_turn_id) == old(agent)@.active_turn_id
            },
        },
{
    if !same_text(agent.status.as_str(), constants::AGENT_STATUS_RUNNING) {
        return RestartStep::Skip;
    }
    let prompt = match &agent.prompt {
        Some(p) => if p.as_str().is_empty() {
            return RestartStep::Skip;
        } else {
            p.clone()
        },
        None => {
            return RestartStep::Skip;
        },
    };
    if agent.restart_attempts >= max_restarts {
        let mut stalled = "worker stalled for ".to_owned();
        stalled.append(decimal_text(inactivity_timeout_ms as u128).as_str());
        stalled.append(" ms without progress");
        agent.status = constants::AGENT_STATUS_FAILED.to_owned();
        agent.updated_at = ts;
        agent.result = Some(
            AgentResult {
                agent_id: agent.id,
                status: constants::AGENT_STATUS_ABORTED.to_owned(),
                completion_method: Some(constants::EVENT_METHOD_TURN_ABORTED.to_owned()),
                turn_id: agent.active_turn_id.clone(),
                final_text: None,
                summary: Some("worker stalled and exceeded restart budget".to_owned()),
                references: None,
                completed_at: Some(ts),
                event_id: None,
                error: Some(stalled.clone()),
            },
        );
        agent.error = Some("worker monitoring restart budget exceeded".to_owned());
        update_failure_report(
            &mut agent.failure_report,
            FailureClass::Timeout,
            "worker monitoring restart budget exceeded".to_owned(),
            Some(stalled),
            false,
            ts,
        );
        return RestartStep::GiveUp { project_id: agent.project_id, job_id: agent.job_id };
    }
    agent.status = constants::AGENT_STATUS_RESTARTING.to_owned();
    agent.updated_at = ts;
    agent.restart_attempts = agent.restart_attempts.saturating_add(1);
    agent.error = None;
    RestartStep::Restart {
        project_id: agent.project_id,
        job_id: agent.job_id,
        thread_id: agent.thread_id.clone(),
        prompt,
        active_turn_id: agent.active_turn_id.clone(),
    }
}

/// Whether the result of the turn that was interrupted is dropped.
pub open spec fn drops_result(a: agent::AgentView, interrupted: Option<Seq<char>>) -> bool {
    a.status == constants::AGENT_STATUS_RESTARTING@ || (a.result matches Some(r)
        && r.completion_method == Some(constants::EVENT_METHOD_TURN_ABORTED@) && r.turn_id
        == interrupted)
}

/// A worker whose prompt was taken once more.
pub open spec fn after_restart(
    a: agent::AgentView,
    interrupted: Option<Seq<char>>,
    turn: Seq<char>,
    ts: u64,
) -> agent::AgentView {
    agent::AgentView {
        active_turn_id: Some(turn),
        result: if drops_result(a, interrupted) {
            None
        } else {
            a.result
        },
        error: if drops_result(a, interrupted) {
            None
        } else {
            a.error
        },
        status: if a.status == constants::AGENT_STATUS_RESTARTING@ {
            constants::AGENT_STATUS_RUNNING@
        } else {
            a.status
        },
        updated_at: ts,
        ..a
    }
}

/// A worker whose prompt was not taken once more.
pub open spec fn after_failed_restart(a: agent::AgentView, error: Seq<char>, ts: u64) -> agent::AgentView {
    let message = "worker restart failed: "@ + error;
    agent::AgentView {
        status: constants::AGENT_STATUS_FAILED@,
        error: Some(message),
        failure_report: Some(
            failure::next_report(
                a.failure_report,
                FailureClass::Unknown,
                "worker restart failed"@,
                Some(error),
                true,
                ts,
            ),
        ),
        result: Some(
            models::ResultView {
                agent_id: a.id,
                status: constants::AGENT_STATUS_ABORTED@,
                completion_method: Some(constants::EVENT_METHOD_TURN_ABORTED@),
                turn_id: a.active_turn_id,
                final_text: None,
                summary: Some("worker restart failed"@),
                references: None,
                completed_at: Some(ts),
                event_id: None,
                error: Some(message),
            },
        ),
        updated_at: ts,
        ..a
    }
}

/// Takes note of what came of sending a stalled worker's prompt once more.
pub fn finish_restart(
    agent: &mut AgentRecord,
    interrupted: &Option<String>,
    outcome: Result<String, String>,
    ts: u64,
)
    ensures
        final(agent)@ == (match outcome {
            Ok(turn) => after_restart(old(agent)@, text::opt_text(*interrupted), turn@, ts),
            Err(error) => after_failed_restart(old(agent)@, error@, ts),
        }),
{
    match outcome {
        Ok(turn) => {
            let restarting = same_text(
                agent.status.as_str(),
                constants::AGENT_STATUS_RESTARTING,
            );
            let broken_off = match &agent.result {
                Some(r) => is_abort_of(r, interrupted),
                None => false,
            };
            agent.active_turn_id = Some(turn);
            if restarting || broken_off {
                agent.result = None;
                agent.error = None;
            }
            if restarting {
                agent.status = constants::AGENT_STATUS_RUNNING.to_owned();
            }
            agent.updated_at = ts;
        },
        Err(error) => {
            let mut message = "worker restart failed: ".to_owned();
            message.append(error.as_str());
            agent.status = constants::AGENT_STATUS_FAILED.to_owned();
            agent.error = Some(message.clone());
            update_failure_report(
                &mut agent.failure_report,
                FailureClass::Unknown,
                "worker restart failed".to_owned(),
                Some(error),
                true,
                ts,
            );
            agent.result = Some(
                AgentResult {
                    agent_id: agent.id,
                    status: constants::AGENT_STATUS_ABORTED.to_owned(),
                    completion_method: Some(constants::EVENT_METHOD_TURN_ABORTED.to_owned()),
                    turn_id: agent.active_turn_id.clone(),
                    final_text: None,
                    summary: Some("worker restart failed".to_owned()),
                    references: None,
                    completed_at: Some(ts),
                    event_id: None,
                    error: Some(message),
                },
            );
            agent.updated_at = ts;
        },
    }
}

/// Whether two optional texts are the same.
pub fn same_opt_text(a: &Option<String>, b: &Option<String>) -> (r: bool)
    ensures
        r == (text::opt_text(*a) == text::opt_text(*b)),
{
    match (a, b) {
        (Some(x), Some(y)) => same_text(x.as_str(), y.as_str()),
        (None, None) => true,
        _ => false,
    }
}

/// Whether a result says that a turn was broken off.
fn is_abort_of(result: &AgentResult, turn: &Option<String>) -> (r: bool)
    ensures
        r == (result@.completion_method == Some(constants::EVENT_METHOD_TURN_ABORTED@)
            && result@.turn_id == text::opt_text(*turn)),
{
    let aborted = match &result.completion_method {
        Some(m) => same_text(m.as_str(), constants::EVENT_METHOD_TURN_ABORTED),
        None => false,
    };
    aborted && same_opt_text(&result.turn_id, turn)
}

/// An agent that still counts as busy though it has a result takes the status of the result.
pub open spec fn reconciled(a: agent::AgentView, ts: u64) -> agent::AgentView {
    match a.result {
        Some(r) => if a.status == constants::AGENT_STATUS_RUNNING@ || a.status
            == constants::AGENT_STATUS_RESTARTING@ {
            agent::AgentView { status: r.status, updated_at: ts, ..a }
        } else {
            a
        },
        None => a,
    }
}

/// Gives an agent that still counts as busy though it has a result the status of the result.
pub fn reconcile_status(agent: &mut AgentRecord, ts: u64)
    ensures
        final(agent)@ == reconciled(old(agent)@, ts),
{
    let busy = same_text(agent.status.as_str(), constants::AGENT_STATUS_RUNNING) || same_text(
        agent.status.as_str(),
        constants::AGENT_STATUS_RESTARTING,
    );
    let status: Option<String> = match &agent.result {
        Some(r) => Some(r.status.clone()),
        None => None,
    };
    if let Some(status) = status {
        if busy {
            agent.status = status;
            agent.updated_at = ts;
        }
    }
}

/// How often the workers are looked at.
pub fn watch_interval_ms(config: &WorkerMonitoringConfig) -> (r: u64)
    ensures
        ({
            let interval = if config.enabled {
                config.watch_interval_ms
            } else {
                constants::DEFAULT_BUDGET_WATCH_INTERVAL_MS
            };
            r == (if interval < constants::MIN_WORKER_MONITOR_INTERVAL_MS {
                constants::MIN_WORKER_MONITOR_INTERVAL_MS
            } else {
                interval
            })
        }),
{
    let interval: u64 = if config.enabled {
        config.watch_interval_ms
    } else {
        constants::DEFAULT_BUDGET_WATCH_INTERVAL_MS
    };
    if interval < constants::MIN_WORKER_MONITOR_INTERVAL_MS {
        constants::MIN_WORKER_MONITOR_INTERVAL_MS
    } else {
        interval
    }
}

/// An agent is found to have stalled exactly where it is a worker in a turn, with a prompt, of
/// which nothing has been heard for more than the time.
pub proof fn law_only_silent_workers_have_stalled(
    agents: Seq<agent::AgentView>,
    now: u64,
    inactivity_timeout_ms: u64,
    id: u128,
)
    ensures
        stalled_ids(agents, now, inactivity_timeout_ms).contains(id) <==> exists|i: int|
            0 <= i < agents.len() && (#[trigger] agents[i]).id == id && is_stalled(
                agents[i],
                now,
                inactivity_timeout_ms,
            ),
    decreases agents.len(),
{
    if agents.len() > 0 {
        let rest = agents.drop_last();
        let before = stalled_ids(rest, now, inactivity_timeout_ms);
        law_only_silent_workers_have_stalled(rest, now, inactivity_timeout_ms, id);
        let all = stalled_ids(agents, now, inactivity_timeout_ms);
        if before.contains(id) {
            let k = choose|k: int| 0 <= k < before.len() && before[k] == id;
            assert(all[k] == id);
            let i = choose|i: int|
                0 <= i < rest.len() && (#[trigger] rest[i]).id == id && is_stalled(
                    rest[i],
                    now,
                    inactivity_timeout_ms,
                );
            assert(agents[i] == rest[i]);
        } else if is_stalled(agents.last(), now, inactivity_timeout_ms) && agents.last().id == id {
            assert(all.last() == id);
            assert(agents[agents.len() - 1] == agents.last());
        } else {
            assert forall|i: int| 0 <= i < agents.len() && (#[trigger] agents[i]).id == id implies !is_stalled(
                agents[i],
                now,
                inactivity_timeout_ms,
            ) by {
                if i < rest.len() {
                    assert(rest[i] == agents[i]);
                }
            }
            assert forall|k: int| 0 <= k < all.len() implies all[k] != id by {
                if k < before.len() {
                    assert(before[k] == all[k]);
                }
            }
        }
    }
}

/// A stalled worker is started again no more often than it may be: each start is counted, and
/// past the limit it has failed, for which there is a result and a report.
pub proof fn law_restarts_are_limited(a: agent::AgentView, max_restarts: u32, timeout_ms: u64, ts: u64)
    requires
        is_candidate(a),
        a.restart_attempts <= max_restarts,
    ensures
        a.restart_attempts < max_restarts ==> while_restarting(a, ts).restart_attempts
            == a.restart_attempts + 1 && while_restarting(a, ts).restart_attempts <= max_restarts,
        a.restart_attempts == max_restarts ==> after_giving_up(a, timeout_ms, ts).status
            == constants::AGENT_STATUS_FAILED@ && !is_candidate(
            after_giving_up(a, timeout_ms, ts),
        ) && after_giving_up(a, timeout_ms, ts).result is Some,
{
    reveal_strlit("failed");
    reveal_strlit("running");
    assert(constants::AGENT_STATUS_FAILED@.len() == 6);
    assert(constants::AGENT_STATUS_RUNNING@.len() == 7);
}

/// Between two times lie a thousand milliseconds for each second, and none where the second time is
/// not later.
pub proof fn law_seconds_are_a_thousand_milliseconds(earlier: u64, seconds: u64)
    requires
        earlier + seconds <= u64::MAX,
        seconds * 1000 <= u64::MAX,
    ensures
        millis_between(earlier, (earlier + seconds) as u64) == seconds * 1000,
        millis_between((earlier + seconds) as u64, earlier) == 0,
{
}

/// An agent has not stalled for just the time that is allowed, nor one that is idle, has no turn or
/// is no worker; one that has stalled has done so still at any later time, until something is
/// heard of it.
pub proof fn law_silence_past_the_time_is_a_stall(
    a: agent::AgentView,
    now: u64,
    later: u64,
    seconds: u64,
)
    requires
        now <= later,
        seconds * 1000 <= u64::MAX,
        a.updated_at + seconds < u64::MAX,
    ensures
        is_stalled(a, now, (seconds * 1000) as u64) ==> is_stalled(a, later, (seconds * 1000) as u64),
        !is_stalled(a, (a.updated_at + seconds) as u64, (seconds * 1000) as u64),
        a.role == AgentRole::Worker && a.status == "running"@ && a.prompt is Some
            && a.active_turn_id is Some ==> is_stalled(
            a,
            (a.updated_at + seconds + 1) as u64,
            (seconds * 1000) as u64,
        ) || seconds * 1000 == u64::MAX,
        a.role != AgentRole::Worker || a.active_turn_id is None || a.prompt is None || a.status
            != "running"@ ==> !is_stalled(a, now, (seconds * 1000) as u64),
        !is_stalled(agent::AgentView { updated_at: now, ..a }, now, (seconds * 1000) as u64),
{
}

/// A worker that is given up has failed, and its turn counts as aborted for good, with a report of
/// a timeout that no other try would mend.
pub proof fn law_given_up_workers_have_failed(a: agent::AgentView, timeout_ms: u64, ts: u64)
    ensures
        ({
            let b = after_giving_up(a, timeout_ms, ts);
            &&& b.status == "failed"@
            &&& b.error is Some
            &&& b.result is Some && b.result->0.agent_id == a.id && b.result->0.status
                == "aborted"@
            &&& b.result->0.completion_method == Some("turn/aborted"@)
            &&& b.result->0.completed_at == Some(ts)
            &&& b.result->0.turn_id == a.active_turn_id
            &&& b.failure_report is Some && b.failure_report->0.class == FailureClass::Timeout
            &&& !b.failure_report->0.retryable
            &&& b.restart_attempts == a.restart_attempts && b.updated_at == ts && b.id == a.id
            &&& b.prompt == a.prompt && b.events == a.events
        }),
        ({
            let b = after_failed_restart(a, text::decimal(timeout_ms as nat), ts);
            &&& b.status == "failed"@
            &&& b.result is Some && b.result->0.status == "aborted"@
            &&& b.result->0.completion_method == Some("turn/aborted"@)
            &&& b.result->0.completed_at == Some(ts)
            &&& b.error == Some("worker restart failed: "@ + text::decimal(timeout_ms as nat))
            &&& b.failure_report is Some && b.failure_report->0.retryable
        }),
{
}

/// A worker that starts again keeps its prompt and what it did, is in the new turn, and forgets
/// what came of the turn that was broken off.
pub proof fn law_restarts_take_up_the_work(
    a: agent::AgentView,
    interrupted: Option<Seq<char>>,
    turn: Seq<char>,
    ts: u64,
    later: u64,
)
    requires
        a.restart_attempts < u32::MAX,
    ensures
        ({
            let b = while_restarting(a, ts);
            &&& b.status == "restarting"@
            &&& b.restart_attempts == a.restart_attempts + 1
            &&& b.error is None
            &&& b.prompt == a.prompt && b.active_turn_id == a.active_turn_id && b.result == a.result
        }),
        ({
            let b = after_restart(while_restarting(a, ts), interrupted, turn, later);
            &&& b.status == "running"@
            &&& b.active_turn_id == Some(turn)
            &&& b.result is None && b.error is None
            &&& b.restart_attempts == a.restart_attempts + 1
            &&& b.prompt == a.prompt && b.updated_at == later
        }),
        a.status == "completed"@ && a.result is Some && a.result->0.completion_method == Some(
            "turn/completed"@,
        ) ==> after_restart(a, interrupted, turn, ts).result == a.result && after_restart(
            a,
            interrupted,
            turn,
            ts,
        ).status == "completed"@,
{
    reveal_strlit("restarting");
    reveal_strlit("completed");
    reveal_strlit("turn/aborted");
    reveal_strlit("turn/completed");
    assert("restarting"@.len() == 10 && "completed"@.len() == 9);
    assert("turn/aborted"@.len() == 12 && "turn/completed"@.len() == 14);
}

/// An agent that has a result is busy no more: it shows the status of the result. One without a
/// result stays as it is.
pub proof fn law_results_end_being_busy(a: agent::AgentView, ts: u64)
    ensures
        a.result is None ==> reconciled(a, ts) == a,
        a.result is Some && (a.status == "running"@ || a.status == "restarting"@) ==> reconciled(
            a,
            ts,
        ).status == a.result->0.status && reconciled(a, ts).updated_at == ts,
        a.status != "running"@ && a.status != "restarting"@ ==> reconciled(a, ts) == a,
        reconciled(a, ts).result == a.result,
        reconciled(reconciled(a, ts), ts) == reconciled(a, ts),
{
}

} // verus!

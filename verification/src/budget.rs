//! What workers use up, and what happens past the limits.
use vstd::prelude::*;

use crate::agent;
use crate::agent::{AgentRecord, WorkerBudgetState};
use crate::config::{BudgetDefaultsConfig, BudgetOnExceed};
use crate::constants;
use crate::failure;
use crate::failure::update_failure_report;
use crate::governor;
use crate::json;
use crate::json::{Json, JsonNumber};
use crate::json_build;
use crate::json_build::{opt_text_json, push_entry, unsigned_json};
use crate::json_search;
use crate::json_search::{find_float_key, find_numeric_key};
use crate::models;
use crate::models::{
    AgentResult, FailureClass, WorkerBudgetLimits, WorkerBudgetStatus, WorkerBudgetUsage,
};
use crate::text;
use crate::text_search::{contains, decimal_text};

verus! {

/// The keys of the tokens that went in.
pub open spec fn prompt_keys() -> Seq<Seq<char>> {
    seq!["prompt_tokens"@, "input_tokens"@]
}

/// The keys of the tokens that came out.
pub open spec fn output_keys() -> Seq<Seq<char>> {
    seq!["output_tokens"@, "completion_tokens"@]
}

/// The keys of the tokens that were at hand.
pub open spec fn cached_keys() -> Seq<Seq<char>> {
    seq!["cached_tokens"@, "cache_read_tokens"@]
}

/// The keys of a cost.
pub open spec fn cost_keys() -> Seq<Seq<char>> {
    seq!["cost_usd"@, "estimated_cost_usd"@, "usd"@, "cost"@]
}

/// A count with what the parameters report under one of `keys`.
pub open spec fn counted(count: u64, params: json::JsonView, keys: Seq<Seq<char>>) -> u64 {
    match json_search::amount_under(params, keys) {
        Some(n) => governor::capped_sum(count as int, n as int),
        None => count,
    }
}

/// The budget with the tokens that the parameters report.
pub open spec fn with_tokens(b: agent::BudgetView, params: json::JsonView) -> agent::BudgetView {
    agent::BudgetView {
        prompt_tokens: counted(b.prompt_tokens, params, prompt_keys()),
        output_tokens: counted(b.output_tokens, params, output_keys()),
        cached_tokens: counted(b.cached_tokens, params, cached_keys()),
        ..b
    }
}

/// How the estimate of a cost changes.
#[derive(Debug, Clone)]
pub enum CostChange {
    /// The amount is added, where it is not below zero.
    Add(JsonNumber),
    /// The cost is estimated anew from this many tokens.
    Estimate(u64),
}

/// Whether a change of the cost is the one that the parameters ask for.
pub open spec fn is_cost_change(
    r: CostChange,
    b: agent::BudgetView,
    params: json::JsonView,
) -> bool {
    match json_search::number_under(params, cost_keys()) {
        Some(n) => r matches CostChange::Add(x) && x@ == n,
        None => r == CostChange::Estimate(agent::all_tokens(with_tokens(b, params))),
    }
}

/// Adds what the parameters report under one of `keys`.
fn add_amount(count: u64, params: &Json, keys: &Vec<&str>) -> (r: u64)
    ensures
        r == counted(count, params@, json_search::key_texts(keys@)),
{
    match find_numeric_key(params, keys) {
        Some(n) => count.saturating_add(n),
        None => count,
    }
}

/// Adds the tokens that the parameters report. Says how the cost changes.
pub fn update_budget_counters(budget: &mut WorkerBudgetState, params: &Json) -> (r: CostChange)
    ensures
        final(budget)@ == with_tokens(old(budget)@, params@),
        is_cost_change(r, old(budget)@, params@),
{
    let prompt: Vec<&str> = vec!["prompt_tokens", "input_tokens"];
    assert(json_search::key_texts(prompt@) == prompt_keys());
    let output: Vec<&str> = vec!["output_tokens", "completion_tokens"];
    assert(json_search::key_texts(output@) == output_keys());
    let cached: Vec<&str> = vec!["cached_tokens", "cache_read_tokens"];
    assert(json_search::key_texts(cached@) == cached_keys());
    let cost: Vec<&str> = vec!["cost_usd", "estimated_cost_usd", "usd", "cost"];
    assert(json_search::key_texts(cost@) == cost_keys());
    budget.prompt_tokens = add_amount(budget.prompt_tokens, params, &prompt);
    budget.output_tokens = add_amount(budget.output_tokens, params, &output);
    budget.cached_tokens = add_amount(budget.cached_tokens, params, &cached);
    match find_float_key(params, &cost) {
        Some(n) => CostChange::Add(n.clone()),
        None => CostChange::Estimate(budget.total_tokens()),
    }
}

/// What came of holding a cost against its limit, with both written out.
#[derive(Debug, Clone)]
pub struct CostCheck {
    pub exceeded: bool,
    pub spent: String,
    pub limit: String,
}

/// Whether a budget is used up, and why.
#[derive(Debug, Clone)]
pub struct BudgetEvaluation {
    pub exceeded: bool,
    pub reason: Option<String>,
}

/// A limit that was passed.
pub open spec fn passed(what: Seq<char>, spent: Seq<char>, limit: Seq<char>) -> Seq<char> {
    what + " budget exceeded ("@ + spent + "/"@ + limit + ")"@
}

/// Why a budget is used up: its tokens first, then its cost, then its time.
pub open spec fn exceeded_reason(
    b: agent::BudgetView,
    max_tokens: u64,
    cost: CostCheck,
    max_duration_ms: u64,
) -> Option<Seq<char>> {
    if agent::all_tokens(b) > max_tokens {
        Some(
            passed(
                "token"@,
                text::decimal(agent::all_tokens(b) as nat),
                text::decimal(max_tokens as nat),
            ),
        )
    } else if cost.exceeded {
        Some(passed("cost"@, cost.spent@, cost.limit@))
    } else if b.elapsed_ms > max_duration_ms {
        Some(
            passed(
                "duration"@,
                text::decimal(b.elapsed_ms as nat),
                text::decimal(max_duration_ms as nat),
            ),
        )
    } else {
        None
    }
}

fn passed_message(what: &str, spent: &str, limit: &str) -> (r: String)
    ensures
        r@ == passed(what@, spent@, limit@),
{
    let mut message = what.to_owned();
    message.append(" budget exceeded (");
    message.append(spent);
    message.append("/");
    message.append(limit);
    message.append(")");
    message
}

/// Whether a budget is used up, and why.
pub fn evaluate_budget(
    budget: &WorkerBudgetState,
    max_tokens: u64,
    cost: &CostCheck,
    max_duration_ms: u64,
) -> (r: BudgetEvaluation)
    ensures
        text::opt_text(r.reason) == exceeded_reason(budget@, max_tokens, *cost, max_duration_ms),
        r.exceeded == r.reason is Some,
{
    let total = budget.total_tokens();
    if total > max_tokens {
        let reason = passed_message(
            "token",
            decimal_text(total as u128).as_str(),
            decimal_text(max_tokens as u128).as_str(),
        );
        return BudgetEvaluation { exceeded: true, reason: Some(reason) };
    }
    if cost.exceeded {
        let reason = passed_message("cost", cost.spent.as_str(), cost.limit.as_str());
        return BudgetEvaluation { exceeded: true, reason: Some(reason) };
    }
    if budget.elapsed_ms > max_duration_ms {
        let reason = passed_message(
            "duration",
            decimal_text(budget.elapsed_ms as u128).as_str(),
            decimal_text(max_duration_ms as u128).as_str(),
        );
        return BudgetEvaluation { exceeded: true, reason: Some(reason) };
    }
    BudgetEvaluation { exceeded: false, reason: None }
}

/// The result of a worker that is stopped past its budget.
pub open spec fn stopped_result(a: agent::AgentView, summary: Seq<char>, ts: u64) -> models::ResultView {
    match a.result {
        Some(r) => models::ResultView {
            status: constants::AGENT_STATUS_FAILED@,
            error: Some(summary),
            ..r
        },
        None => models::ResultView {
            agent_id: a.id,
            status: constants::AGENT_STATUS_FAILED@,
            completion_method: Some(constants::EVENT_METHOD_TURN_ABORTED@),
            turn_id: a.active_turn_id,
            final_text: None,
            summary: Some("worker stopped by budget guardrail"@),
            references: None,
            completed_at: Some(ts),
            event_id: None,
            error: Some(summary),
        },
    }
}

/// An agent past its budget: warned, paused once it has no turn, or stopped.
pub open spec fn after_exceeding(
    a: agent::AgentView,
    on_exceed: BudgetOnExceed,
    reason: Seq<char>,
    ts: u64,
) -> agent::AgentView {
    match on_exceed {
        BudgetOnExceed::Warn => agent::AgentView {
            error: Some("budget warning: "@ + reason),
            ..a
        },
        BudgetOnExceed::Pause => agent::AgentView {
            budget: agent::BudgetView { paused_reason: Some(reason), ..a.budget },
            status: if a.active_turn_id is None {
                constants::AGENT_STATUS_PAUSED@
            } else {
                a.status
            },
            error: Some("budget paused: "@ + reason),
            ..a
        },
        BudgetOnExceed::Kill => {
            let summary = "budget exceeded: "@ + reason;
            agent::AgentView {
                failure_report: Some(
                    failure::next_report(
                        a.failure_report,
                        if text::has_text(reason, "duration"@) {
                            FailureClass::Timeout
                        } else {
                            FailureClass::Unknown
                        },
                        summary,
                        Some(reason),
                        false,
                        ts,
                    ),
                ),
                status: constants::AGENT_STATUS_FAILED@,
                error: Some(summary),
                result: Some(stopped_result(a, summary, ts)),
                ..a
            }
        },
    }
}

/// Warns, pauses or stops an agent past its budget. Names the thread and the turn to interrupt
/// where it is stopped within one.
pub fn apply_budget_transition(
    agent: &mut AgentRecord,
    on_exceed: &BudgetOnExceed,
    reason: &str,
    ts: u64,
) -> (r: Option<(String, String)>)
    ensures
        final(agent)@ == after_exceeding(old(agent)@, *on_exceed, reason@, ts),
        r is Some == (on_exceed is Kill && old(agent)@.active_turn_id is Some),
        r matches Some(p) ==> p.0@ == old(agent)@.thread_id && Some(p.1@) == old(
            agent,
        )@.active_turn_id,
{
    match on_exceed {
        BudgetOnExceed::Warn => {
            let mut message = "budget warning: ".to_owned();
            message.append(reason);
            agent.error = Some(message);
            None
        },
        BudgetOnExceed::Pause => {
            agent.budget.paused_reason = Some(reason.to_owned());
            if agent.active_turn_id.is_none() {
                agent.status = constants::AGENT_STATUS_PAUSED.to_owned();
            }
            let mut message = "budget paused: ".to_owned();
            message.append(reason);
            agent.error = Some(message);
            None
        },
        BudgetOnExceed::Kill => {
            let mut summary = "budget exceeded: ".to_owned();
            summary.append(reason);
            let class = if contains(reason, "duration") {
                FailureClass::Timeout
            } else {
                FailureClass::Unknown
            };
            update_failure_report(
                &mut agent.failure_report,
                class,
                summary.clone(),
                Some(reason.to_owned()),
                false,
                ts,
            );
            agent.status = constants::AGENT_STATUS_FAILED.to_owned();
            agent.error = Some(summary.clone());
            let turn_id = agent.active_turn_id.clone();
            let previous = agent.result.take();
            let result = match previous {
                Some(mut result) => {
                    result.status = constants::AGENT_STATUS_FAILED.to_owned();
                    result.error = Some(summary);
                    result
                },
                None => AgentResult {
                    agent_id: agent.id,
                    status: constants::AGENT_STATUS_FAILED.to_owned(),
                    completion_method: Some(constants::EVENT_METHOD_TURN_ABORTED.to_owned()),
                    turn_id: turn_id.clone(),
                    final_text: None,
                    summary: Some("worker stopped by budget guardrail".to_owned()),
                    references: None,
                    completed_at: Some(ts),
                    event_id: None,
                    error: Some(summary),
                },
            };
            agent.result = Some(result);
            match turn_id {
                Some(turn_id) => Some((agent.thread_id.clone(), turn_id)),
                None => None,
            }
        },
    }
}

/// What an agent has used up, entry by entry.
pub open spec fn budget_entries(b: agent::BudgetView) -> Seq<(Seq<char>, json::JsonView)> {
    seq![
        ("prompt_tokens"@, json_build::whole(b.prompt_tokens as int)),
        ("output_tokens"@, json_build::whole(b.output_tokens as int)),
        ("cached_tokens"@, json_build::whole(b.cached_tokens as int)),
        ("estimated_cost_usd"@, json::JsonView::Number(b.estimated_cost_usd)),
        ("elapsed_ms"@, json_build::whole(b.elapsed_ms as int)),
        ("exceeded"@, json::JsonView::Bool(b.exceeded)),
        ("exceeded_reason"@, json_build::text_or_null(b.exceeded_reason)),
    ]
}

/// What an agent has used up, as JSON.
pub open spec fn budget_json(b: agent::BudgetView) -> json::JsonView {
    json::JsonView::Object(budget_entries(b))
}

/// What an agent has used up, as JSON.
pub fn worker_budget_json(agent: &AgentRecord) -> (r: Json)
    ensures
        r@ == budget_json(agent@.budget),
{
    let b = &agent.budget;
    let mut items: Vec<(String, Json)> = Vec::new();
    assert(json::entries_model(items@) == Seq::<(Seq<char>, json::JsonView)>::empty());
    push_entry(&mut items, "prompt_tokens", unsigned_json(b.prompt_tokens));
    push_entry(&mut items, "output_tokens", unsigned_json(b.output_tokens));
    push_entry(&mut items, "cached_tokens", unsigned_json(b.cached_tokens));
    push_entry(&mut items, "estimated_cost_usd", Json::Number(b.estimated_cost_usd.clone()));
    push_entry(&mut items, "elapsed_ms", unsigned_json(b.elapsed_ms));
    push_entry(&mut items, "exceeded", Json::Bool(b.exceeded));
    push_entry(&mut items, "exceeded_reason", opt_text_json(&b.exceeded_reason));
    assert(json::entries_model(items@) == budget_entries(agent@.budget));
    Json::Object(items)
}

/// The name of what happens past a budget.
pub open spec fn on_exceed_name(on_exceed: BudgetOnExceed) -> Seq<char> {
    match on_exceed {
        BudgetOnExceed::Warn => "warn"@,
        BudgetOnExceed::Pause => "pause"@,
        BudgetOnExceed::Kill => "kill"@,
    }
}

/// Whether a status tells what an agent has used up of what it may.
pub open spec fn is_budget_status(
    s: WorkerBudgetStatus,
    b: agent::BudgetView,
    defaults: BudgetDefaultsConfig,
) -> bool {
    &&& s.usage.prompt_tokens == b.prompt_tokens
    &&& s.usage.output_tokens == b.output_tokens
    &&& s.usage.cached_tokens == b.cached_tokens
    &&& s.usage.estimated_cost_usd@ == b.estimated_cost_usd
    &&& s.usage.elapsed_ms == b.elapsed_ms
    &&& s.limits.max_tokens == defaults.max_tokens
    &&& s.limits.max_duration_ms == defaults.max_duration_ms
    &&& s.limits.on_exceed@ == on_exceed_name(defaults.on_exceed)
    &&& s.exceeded == b.exceeded
    &&& text::opt_text(s.exceeded_reason) == b.exceeded_reason
}

/// What an agent has used up of what it may.
pub fn worker_budget_status(agent: &AgentRecord, defaults: &BudgetDefaultsConfig) -> (r: WorkerBudgetStatus)
    ensures
        is_budget_status(r, agent@.budget, *defaults),
{
    let on_exceed = match defaults.on_exceed {
        BudgetOnExceed::Warn => "warn",
        BudgetOnExceed::Pause => "pause",
        BudgetOnExceed::Kill => "kill",
    };
    WorkerBudgetStatus {
        usage: WorkerBudgetUsage {
            prompt_tokens: agent.budget.prompt_tokens,
            output_tokens: agent.budget.output_tokens,
            cached_tokens: agent.budget.cached_tokens,
            estimated_cost_usd: agent.budget.estimated_cost_usd.clone(),
            elapsed_ms: agent.budget.elapsed_ms,
        },
        limits: WorkerBudgetLimits {
            max_tokens: defaults.max_tokens,
            max_duration_ms: defaults.max_duration_ms,
            on_exceed: on_exceed.to_owned(),
        },
        exceeded: agent.budget.exceeded,
        exceeded_reason: agent.budget.exceeded_reason.clone(),
    }
}

/// Tokens add up: what an event reports is put on top of the count, up to the largest number, a
/// count never goes down, and an event that reports nothing leaves it.
pub proof fn law_tokens_add_up(b: agent::BudgetView, params: json::JsonView)
    ensures
        ({
            let after = with_tokens(b, params);
            let went_in = json_search::amount_under(
                params,
                seq!["prompt_tokens"@, "input_tokens"@],
            );
            let came_out = json_search::amount_under(
                params,
                seq!["output_tokens"@, "completion_tokens"@],
            );
            let at_hand = json_search::amount_under(
                params,
                seq!["cached_tokens"@, "cache_read_tokens"@],
            );
            &&& after.prompt_tokens >= b.prompt_tokens
            &&& after.output_tokens >= b.output_tokens
            &&& after.cached_tokens >= b.cached_tokens
            &&& went_in is None ==> after.prompt_tokens == b.prompt_tokens
            &&& came_out is None ==> after.output_tokens == b.output_tokens
            &&& at_hand is None ==> after.cached_tokens == b.cached_tokens
            &&& went_in is Some && b.prompt_tokens + went_in->0 <= u64::MAX ==> after.prompt_tokens
                - b.prompt_tokens == went_in->0
            &&& came_out is Some && b.output_tokens + came_out->0 <= u64::MAX ==> after.output_tokens
                - b.output_tokens == came_out->0
            &&& at_hand is Some && b.cached_tokens + at_hand->0 <= u64::MAX ==> after.cached_tokens
                - b.cached_tokens == at_hand->0
            &&& went_in is Some && b.prompt_tokens + went_in->0 > u64::MAX ==> after.prompt_tokens
                == u64::MAX
            &&& came_out is Some && b.output_tokens + came_out->0 > u64::MAX ==> after.output_tokens
                == u64::MAX
            &&& at_hand is Some && b.cached_tokens + at_hand->0 > u64::MAX ==> after.cached_tokens
                == u64::MAX
        }),
{
}

/// After two reports a count holds the sum of both, in whichever order they came.
pub proof fn law_two_reports_are_summed(
    b: agent::BudgetView,
    first: json::JsonView,
    second: json::JsonView,
    m: u64,
    n: u64,
)
    requires
        json_search::amount_under(first, seq!["prompt_tokens"@, "input_tokens"@]) == Some(m),
        json_search::amount_under(second, seq!["prompt_tokens"@, "input_tokens"@]) == Some(n),
        b.prompt_tokens + m + n <= u64::MAX,
    ensures
        with_tokens(with_tokens(b, first), second).prompt_tokens == b.prompt_tokens + m + n,
        with_tokens(with_tokens(b, first), second).prompt_tokens == with_tokens(
            with_tokens(b, second),
            first,
        ).prompt_tokens,
{
}

/// Tokens that are reported as the usage of an event are found and counted.
pub proof fn law_usage_is_counted(b: agent::BudgetView, prompt: u64, output: u64)
    requires
        b.prompt_tokens + prompt <= u64::MAX,
        b.output_tokens + output <= u64::MAX,
    ensures
        ({
            let usage = json::JsonView::Object(
                seq![
                    (
                        "prompt_tokens"@,
                        json::JsonView::Number(json::NumberView::Whole(prompt as int)),
                    ),
                    (
                        "output_tokens"@,
                        json::JsonView::Number(json::NumberView::Whole(output as int)),
                    ),
                ],
            );
            let after = with_tokens(b, json::JsonView::Object(seq![("usage"@, usage)]));
            &&& after.prompt_tokens == b.prompt_tokens + prompt
            &&& after.output_tokens == b.output_tokens + output
        }),
{
    let items = seq![
        ("prompt_tokens"@, json::JsonView::Number(json::NumberView::Whole(prompt as int))),
        ("output_tokens"@, json::JsonView::Number(json::NumberView::Whole(output as int))),
    ];
    let usage = json::JsonView::Object(items);
    reveal_strlit("usage");
    reveal_strlit("prompt_tokens");
    reveal_strlit("input_tokens");
    reveal_strlit("output_tokens");
    reveal_strlit("completion_tokens");
    assert("usage"@.len() == 5);
    assert("prompt_tokens"@.len() == 13 && "prompt_tokens"@[0] == 'p');
    assert("input_tokens"@.len() == 12);
    assert("output_tokens"@.len() == 13 && "output_tokens"@[0] == 'o');
    assert("completion_tokens"@.len() == 17);
    assert(items.skip(1)[0] == items[1]);
    assert(json::member(usage, "prompt_tokens"@) == Some(items[0].1));
    assert(json::entry_value(items.skip(1), "output_tokens"@) == Some(items[1].1));
    assert(json::member(usage, "output_tokens"@) == Some(items[1].1));
    json_search::law_amounts_at_the_top_are_found(
        usage,
        "prompt_tokens"@,
        "input_tokens"@,
        prompt,
    );
    json_search::law_amounts_at_the_top_are_found(
        usage,
        "output_tokens"@,
        "completion_tokens"@,
        output,
    );
    json_search::law_nested_amounts_are_found(usage, "usage"@, "prompt_tokens"@, "input_tokens"@);
    json_search::law_nested_amounts_are_found(
        usage,
        "usage"@,
        "output_tokens"@,
        "completion_tokens"@,
    );
}

/// A budget is used up exactly where its tokens in all, its cost or its time are more than may be;
/// what is just as much as may be is not too much.
pub proof fn law_budget_is_used_up_past_a_limit(
    b: agent::BudgetView,
    max_tokens: u64,
    cost: CostCheck,
    max_duration_ms: u64,
)
    requires
        b.prompt_tokens + b.output_tokens + b.cached_tokens <= u64::MAX,
    ensures
        exceeded_reason(b, max_tokens, cost, max_duration_ms) is Some <==> b.prompt_tokens
            + b.output_tokens + b.cached_tokens > max_tokens || cost.exceeded || b.elapsed_ms
            > max_duration_ms,
        b.prompt_tokens + b.output_tokens + b.cached_tokens > max_tokens ==> exceeded_reason(
            b,
            max_tokens,
            cost,
            max_duration_ms,
        ) == Some(
            "token budget exceeded ("@ + text::decimal(
                (b.prompt_tokens + b.output_tokens + b.cached_tokens) as nat,
            ) + "/"@ + text::decimal(max_tokens as nat) + ")"@,
        ),
        b.prompt_tokens + b.output_tokens + b.cached_tokens <= max_tokens && cost.exceeded
            ==> exceeded_reason(b, max_tokens, cost, max_duration_ms) == Some(
            "cost budget exceeded ("@ + cost.spent@ + "/"@ + cost.limit@ + ")"@,
        ),
        b.prompt_tokens + b.output_tokens + b.cached_tokens <= max_tokens && !cost.exceeded
            && b.elapsed_ms > max_duration_ms ==> exceeded_reason(
            b,
            max_tokens,
            cost,
            max_duration_ms,
        ) == Some(
            "duration budget exceeded ("@ + text::decimal(b.elapsed_ms as nat) + "/"@
                + text::decimal(max_duration_ms as nat) + ")"@,
        ),
{
    reveal_strlit("token");
    reveal_strlit("cost");
    reveal_strlit("duration");
    reveal_strlit(" budget exceeded (");
    reveal_strlit("token budget exceeded (");
    reveal_strlit("cost budget exceeded (");
    reveal_strlit("duration budget exceeded (");
    assert("token"@ + " budget exceeded ("@ == "token budget exceeded ("@);
    assert("cost"@ + " budget exceeded ("@ == "cost budget exceeded ("@);
    assert("duration"@ + " budget exceeded ("@ == "duration budget exceeded ("@);
}

/// Past its budget a worker that is to be warned goes on with a warning, one that is to be paused
/// is held, at once where it has no turn, and one that is to be stopped has failed, with a result
/// and a report of it that no other try would help.
pub proof fn law_policy_decides_past_a_budget(a: agent::AgentView, reason: Seq<char>, ts: u64)
    ensures
        after_exceeding(a, BudgetOnExceed::Warn, reason, ts) == (agent::AgentView {
            error: Some("budget warning: "@ + reason),
            ..a
        }),
        ({
            let b = after_exceeding(a, BudgetOnExceed::Pause, reason, ts);
            &&& b.budget.paused_reason == Some(reason)
            &&& b.error == Some("budget paused: "@ + reason)
            &&& a.active_turn_id is None ==> b.status == "paused"@
            &&& a.active_turn_id is Some ==> b.status == a.status
            &&& b.result == a.result
            &&& b.failure_report == a.failure_report
        }),
        ({
            let b = after_exceeding(a, BudgetOnExceed::Kill, reason, ts);
            &&& b.status == "failed"@
            &&& b.error == Some("budget exceeded: "@ + reason)
            &&& b.result is Some
            &&& b.result->0.status == "failed"@
            &&& b.result->0.error == Some("budget exceeded: "@ + reason)
            &&& a.result is None ==> b.result->0.completed_at == Some(ts)
                && b.result->0.completion_method == Some("turn/aborted"@) && b.result->0.agent_id
                == a.id && b.result->0.turn_id == a.active_turn_id
            &&& b.failure_report is Some
            &&& !b.failure_report->0.retryable
            &&& b.failure_report->0.last_seen == ts
        }),
{
}

/// What is told of a budget is what was used up and what may be, each under its own name.
pub proof fn law_budgets_are_told_as_they_are(
    s: WorkerBudgetStatus,
    b: agent::BudgetView,
    defaults: BudgetDefaultsConfig,
)
    ensures
        is_budget_status(s, b, defaults) ==> s.usage.prompt_tokens == b.prompt_tokens
            && s.usage.output_tokens == b.output_tokens && s.usage.cached_tokens == b.cached_tokens
            && s.usage.elapsed_ms == b.elapsed_ms && s.limits.max_tokens == defaults.max_tokens
            && s.limits.max_duration_ms == defaults.max_duration_ms && s.exceeded == b.exceeded,
        is_budget_status(s, b, defaults) && defaults.on_exceed == BudgetOnExceed::Warn
            ==> s.limits.on_exceed@ == "warn"@,
        is_budget_status(s, b, defaults) && defaults.on_exceed == BudgetOnExceed::Pause
            ==> s.limits.on_exceed@ == "pause"@,
        is_budget_status(s, b, defaults) && defaults.on_exceed == BudgetOnExceed::Kill
            ==> s.limits.on_exceed@ == "kill"@,
        ({
            let items = budget_entries(b);
            let number = |n: u64| json::JsonView::Number(json::NumberView::Whole(n as int));
            &&& items.len() == 7
            &&& items[0] == ("prompt_tokens"@, number(b.prompt_tokens))
            &&& items[1] == ("output_tokens"@, number(b.output_tokens))
            &&& items[2] == ("cached_tokens"@, number(b.cached_tokens))
            &&& items[4] == ("elapsed_ms"@, number(b.elapsed_ms))
            &&& items[5] == ("exceeded"@, json::JsonView::Bool(b.exceeded))
            &&& b.exceeded_reason is Some ==> items[6] == (
                "exceeded_reason"@,
                json::JsonView::Text(b.exceeded_reason->0),
            )
        }),
{
}

/// A cost that is reported is added as it is, under the first of its names that is there; where none
/// is reported the cost is estimated from all the tokens that were used up by then.
pub proof fn law_reported_costs_are_added(
    r: CostChange,
    b: agent::BudgetView,
    params: json::JsonView,
    n: json::NumberView,
)
    requires
        is_cost_change(r, b, params),
    ensures
        json::member(params, "cost_usd"@) == Some(json::JsonView::Number(n)) ==> r is Add
            && r->Add_0@ == n,
        json::member(params, "cost_usd"@) is None && json::member(params, "estimated_cost_usd"@)
            == Some(json::JsonView::Number(n)) ==> r is Add && r->Add_0@ == n,
        json::member(params, "cost_usd"@) is None && json::member(params, "estimated_cost_usd"@)
            is None && json::member(params, "usd"@) == Some(json::JsonView::Number(n)) ==> r is Add
            && r->Add_0@ == n,
        json::member(params, "cost_usd"@) is None && json::member(params, "estimated_cost_usd"@)
            is None && json::member(params, "usd"@) is None && json::member(params, "cost"@) == Some(
            json::JsonView::Number(n),
        ) ==> r is Add && r->Add_0@ == n,
        params is Null || params is Text ==> r is Estimate,
        ({
            let after = with_tokens(b, params);
            let all = after.prompt_tokens + after.output_tokens + after.cached_tokens;
            r is Estimate && all <= u64::MAX ==> r->Estimate_0 == all
        }),
{
    let keys = cost_keys();
    let k3 = keys.drop_last();
    let k2 = k3.drop_last();
    let k1 = k2.drop_last();
    assert(k1.drop_last() == Seq::<Seq<char>>::empty());
    assert(k1.last() == "cost_usd"@ && k2.last() == "estimated_cost_usd"@ && k3.last() == "usd"@
        && keys.last() == "cost"@);
    assert(json_search::keyed_number(params, k1.drop_last()) is None);
    let a = json_search::number_of(json::member(params, "cost_usd"@));
    let c = json_search::number_of(json::member(params, "estimated_cost_usd"@));
    let d = json_search::number_of(json::member(params, "usd"@));
    assert(json_search::keyed_number(params, k1) == a);
    assert(json_search::keyed_number(params, k2) == json::either(a, c));
    assert(json_search::keyed_number(params, k3) == json::either(json::either(a, c), d));
    assert(json_search::keyed_number(params, keys) == json::either(
        json::either(json::either(a, c), d),
        json_search::number_of(json::member(params, "cost"@)),
    ));
}

} // verus!

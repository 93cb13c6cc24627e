//! Between the records of the service and the state that is kept: each way, and what of a record
//! comes back.
use vstd::prelude::*;

use crate::agent;
use crate::agent::{
    AgentRecord, AgentRole, WorkerBudgetState, WorkerCallback, WorkerCheckpoint,
    WorkerProfileCallback, WorkerUnixSocketCallback, WorkerWebhookCallback,
};
use crate::constants;
use crate::error::ForemanError;
use crate::governor;
use crate::governor::{governor_key, opt_ref, GovernorState};
use crate::id_map::IdMap;
use crate::ids;
use crate::ids::{id_text, parse_id};
use crate::job;
use crate::job::{clone_opt_result, JobRecord};
use crate::json;
use crate::models;
use crate::models::{
    clone_events, clone_opt_failure, clone_opt_texts, clone_texts, clone_vars, AgentEventDto,
};
use crate::project;
use crate::project::{ProjectConfig, ProjectRuntimeFiles};
use crate::projects;
use crate::projects::ProjectRecord;
use crate::protocol;
use crate::protocol::parse_turn_id;
use crate::state::{
    PersistedAgentRecord, PersistedGovernorRecord, PersistedJobRecord, PersistedProjectRecord,
    PersistedRuntimeFiles, PersistedWorkerBudget, PersistedWorkerCallback,
    PersistedWorkerCheckpoint,
};
use crate::text;
use crate::text::same_text;
use crate::text_map;
use crate::text_map::TextMap;
use crate::vars;
use crate::vars::normalize_project_lifecycle_callback_status;

verus! {

/// What is wrong with the text of an identifier.
pub open spec fn id_problem(t: Seq<char>, context: Seq<char>) -> Option<Seq<Seq<char>>> {
    match ids::uuid_parsed(t) {
        Ok(_) => None,
        Err(message) => Some(seq![context, message]),
    }
}

/// The identifier that a text holds.
pub open spec fn id_of(t: Seq<char>) -> u128 {
    ids::uuid_parsed(t)->Ok_0
}

/// What is wrong with the text of an optional identifier.
pub open spec fn opt_id_problem(t: Option<Seq<char>>, context: Seq<char>) -> Option<Seq<Seq<char>>> {
    match t {
        Some(s) => id_problem(s, context),
        None => None,
    }
}

/// The optional identifier that a text holds.
pub open spec fn opt_id_of(t: Option<Seq<char>>) -> Option<u128> {
    match t {
        Some(s) => Some(id_of(s)),
        None => None,
    }
}

/// What is wrong with the first text of a list that holds no identifier.
pub open spec fn ids_problem(list: Seq<Seq<char>>, context: Seq<char>) -> Option<Seq<Seq<char>>>
    decreases list.len(),
{
    if list.len() == 0 {
        None
    } else {
        json::either(ids_problem(list.drop_last(), context), id_problem(list.last(), context))
    }
}

/// The identifiers that the texts of a list hold.
pub open spec fn ids_of(list: Seq<Seq<char>>) -> Seq<u128> {
    list.map_values(|t: Seq<char>| id_of(t))
}

fn read_id(t: &str, context: &str) -> (r: Result<u128, ForemanError>)
    ensures
        match id_problem(t@, context@) {
            None => r matches Ok(id) && id == id_of(t@),
            Some(chain) => r matches Err(e) && e@ == chain,
        },
{
    match parse_id(t) {
        Ok(id) => Ok(id),
        Err(message) => {
            let e = ForemanError::new(message).context(context.to_owned());
            assert(e@ == seq![context@, message@]);
            Err(e)
        },
    }
}

fn read_opt_id(t: &Option<String>, context: &str) -> (r: Result<Option<u128>, ForemanError>)
    ensures
        match opt_id_problem(text::opt_text(*t), context@) {
            None => r matches Ok(id) && id == opt_id_of(text::opt_text(*t)),
            Some(chain) => r matches Err(e) && e@ == chain,
        },
{
    match t {
        Some(s) => match read_id(s.as_str(), context) {
            Ok(id) => Ok(Some(id)),
            Err(e) => Err(e),
        },
        None => Ok(None),
    }
}

proof fn lemma_ids_problem(list: Seq<Seq<char>>, context: Seq<char>, n: int)
    requires
        0 <= n <= list.len(),
        ids_problem(list.take(n), context) is Some,
    ensures
        ids_problem(list, context) == ids_problem(list.take(n), context),
    decreases list.len(),
{
    if n < list.len() {
        assert(list.drop_last().take(n) == list.take(n));
        lemma_ids_problem(list.drop_last(), context, n);
    } else {
        assert(list.take(n) == list);
    }
}

fn read_ids(list: &Vec<String>, context: &str) -> (r: Result<Vec<u128>, ForemanError>)
    ensures
        match ids_problem(text::texts(list@), context@) {
            None => r matches Ok(v) && v@ == ids_of(text::texts(list@)),
            Some(chain) => r matches Err(e) && e@ == chain,
        },
{
    let ghost all = text::texts(list@);
    let mut out: Vec<u128> = Vec::new();
    let mut i: usize = 0;
    assert(all.take(0) == Seq::<Seq<char>>::empty());
    while i < list.len()
        invariant
            i <= list@.len(),
            all == text::texts(list@),
            ids_problem(all.take(i as int), context@) is None,
            out@ == ids_of(all.take(i as int)),
        decreases list@.len() - i,
    {
        proof {
            assert(all.take(i + 1).drop_last() == all.take(i as int));
            assert(all.take(i + 1).last() == list@[i as int]@);
        }
        match read_id(list[i].as_str(), context) {
            Ok(id) => {
                out.push(id);
                assert(out@ == ids_of(all.take(i + 1)));
            },
            Err(e) => {
                proof {
                    lemma_ids_problem(all, context@, i + 1);
                }
                return Err(e);
            },
        }
        i += 1;
    }
    assert(all.take(i as int) == all);
    Ok(out)
}

/// The texts of identifiers.
pub open spec fn id_texts(list: Seq<u128>) -> Seq<Seq<char>> {
    list.map_values(|id: u128| ids::uuid_text(id))
}

/// The texts of identifiers hold those identifiers.
fn write_ids(list: &Vec<u128>) -> (r: Vec<String>)
    ensures
        text::texts(r@) == id_texts(list@),
        forall|context: Seq<char>| #[trigger] ids_problem(text::texts(r@), context) is None,
        ids_of(text::texts(r@)) == list@,
{
    let mut out: Vec<String> = Vec::new();
    let mut i: usize = 0;
    proof {
        assert(text::texts(out@) == Seq::<Seq<char>>::empty());
    }
    while i < list.len()
        invariant
            i <= list@.len(),
            text::texts(out@) == id_texts(list@.take(i as int)),
            forall|context: Seq<char>| #[trigger] ids_problem(text::texts(out@), context) is None,
            ids_of(text::texts(out@)) == list@.take(i as int),
        decreases list@.len() - i,
    {
        let t = id_text(list[i]);
        let ghost before = text::texts(out@);
        out.push(t);
        proof {
            let after = text::texts(out@);
            assert(after == before.push(t@));
            assert(after.drop_last() == before);
            assert(after.last() == t@);
            assert forall|context: Seq<char>| #[trigger] ids_problem(after, context) is None by {
                assert(ids_problem(before, context) is None);
                assert(id_problem(t@, context) is None);
            }
            assert(after == id_texts(list@.take(i + 1)));
            assert(ids_of(after) == list@.take(i + 1)) by {
                assert(ids_of(after) == ids_of(before).push(list@[i as int]));
            }
        }
        i += 1;
    }
    assert(list@.take(i as int) == list@);
    out
}

fn write_opt_id(id: Option<u128>) -> (r: Option<String>)
    ensures
        text::opt_text(r) == ids::opt_uuid_text(id),
        forall|context: Seq<char>| #[trigger]
            opt_id_problem(text::opt_text(r), context) is None,
        opt_id_of(text::opt_text(r)) == id,
{
    match id {
        Some(id) => Some(id_text(id)),
        None => None,
    }
}

/// The keys of entries.
pub open spec fn keys_of<V>(items: Seq<(Seq<char>, V)>) -> Seq<Seq<char>> {
    items.map_values(|e: (Seq<char>, V)| e.0)
}

/// Whether values are kept under the texts of the identifiers that they have in a map, and nothing
/// else is kept.
pub open spec fn keyed_by_text<V>(kept: Map<Seq<char>, V>, m: Map<u128, V>) -> bool {
    &&& forall|id: u128| #[trigger]
        m.dom().contains(id) ==> kept.dom().contains(ids::uuid_text(id))
            && kept[ids::uuid_text(id)] == m[id]
    &&& forall|t: Seq<char>| #[trigger]
        kept.dom().contains(t) ==> exists|id: u128| #[trigger]
            m.dom().contains(id) && t == ids::uuid_text(id)
}

proof fn lemma_keyed_by_text<A, B, V>(
    kept_items: Seq<(Seq<char>, A)>,
    kept: Map<Seq<char>, V>,
    items: Seq<(u128, B)>,
    m: Map<u128, V>,
)
    requires
        kept_items.len() == items.len(),
        forall|t: Seq<char>| #[trigger]
            kept.dom().contains(t) <==> text_map::has_key(kept_items, t),
        forall|id: u128| #[trigger] m.dom().contains(id) <==> text_map::has_key(items, id),
        forall|k: int|
            0 <= k < items.len() ==> (#[trigger] kept_items[k]).0 == ids::uuid_text(items[k].0)
                && kept[kept_items[k].0] == m[items[k].0],
    ensures
        keyed_by_text(kept, m),
{
    assert forall|id: u128| #[trigger] m.dom().contains(id) implies kept.dom().contains(
        ids::uuid_text(id),
    ) && kept[ids::uuid_text(id)] == m[id] by {
        let k = choose|k: int| 0 <= k < items.len() && (#[trigger] items[k]).0 == id;
        assert(kept_items[k].0 == ids::uuid_text(id));
    }
    assert forall|t: Seq<char>| #[trigger] kept.dom().contains(t) implies exists|id: u128|
     #[trigger] m.dom().contains(id) && t == ids::uuid_text(id) by {
        let k = choose|k: int| 0 <= k < kept_items.len() && (#[trigger] kept_items[k]).0 == t;
        assert(items[k].0 == items[k].0);
        assert(m.dom().contains(items[k].0));
    }
}

/// A callback that was kept.
pub open spec fn kept_callback(c: PersistedWorkerCallback) -> agent::CallbackView {
    match c {
        PersistedWorkerCallback::Unset => agent::CallbackView::Unset,
        PersistedWorkerCallback::Webhook { url, secret, timeout_ms, events, vars } => {
            agent::CallbackView::Webhook {
                url: url@,
                secret: text::opt_text(secret),
                events: text::opt_texts(events),
                timeout_ms,
                vars: vars::values_of(vars@),
            }
        },
        PersistedWorkerCallback::UnixSocket { socket, timeout_ms, events, vars } => {
            agent::CallbackView::UnixSocket {
                socket: socket@,
                events: text::opt_texts(events),
                timeout_ms,
                vars: vars::values_of(vars@),
            }
        },
        PersistedWorkerCallback::Profile { profile, prompt_prefix, command_args, events, vars } => {
            agent::CallbackView::Profile {
                profile: profile@,
                prompt_prefix: text::opt_text(prompt_prefix),
                command_args: text::opt_texts(command_args),
                events: text::opt_texts(events),
                vars: vars::values_of(vars@),
            }
        },
    }
}

/// The callback that was kept.
pub fn restore_persisted_callback(value: PersistedWorkerCallback) -> (r: WorkerCallback)
    ensures
        r@ == kept_callback(value),
{
    match value {
        PersistedWorkerCallback::Unset => WorkerCallback::Unset,
        PersistedWorkerCallback::Webhook { url, secret, timeout_ms, events, vars } => {
            WorkerCallback::Webhook(WorkerWebhookCallback { url, secret, events, timeout_ms, vars })
        },
        PersistedWorkerCallback::UnixSocket { socket, timeout_ms, events, vars } => {
            WorkerCallback::UnixSocket(
                WorkerUnixSocketCallback { socket, events, timeout_ms, vars },
            )
        },
        PersistedWorkerCallback::Profile { profile, prompt_prefix, command_args, events, vars } => {
            WorkerCallback::Profile(
                WorkerProfileCallback { profile, prompt_prefix, command_args, events, vars },
            )
        },
    }
}

/// The callback as it is kept. The same callback comes back.
pub fn persist_worker_callback(callback: &WorkerCallback) -> (r: PersistedWorkerCallback)
    ensures
        kept_callback(r) == callback@,
{
    match callback {
        WorkerCallback::Unset => PersistedWorkerCallback::Unset,
        WorkerCallback::Webhook(c) => PersistedWorkerCallback::Webhook {
            url: c.url.clone(),
            secret: c.secret.clone(),
            timeout_ms: c.timeout_ms,
            events: clone_opt_texts(&c.events),
            vars: clone_vars(&c.vars),
        },
        WorkerCallback::UnixSocket(c) => PersistedWorkerCallback::UnixSocket {
            socket: c.socket.clone(),
            timeout_ms: c.timeout_ms,
            events: clone_opt_texts(&c.events),
            vars: clone_vars(&c.vars),
        },
        WorkerCallback::Profile(c) => PersistedWorkerCallback::Profile {
            profile: c.profile.clone(),
            prompt_prefix: c.prompt_prefix.clone(),
            command_args: clone_opt_texts(&c.command_args),
            events: clone_opt_texts(&c.events),
            vars: clone_vars(&c.vars),
        },
    }
}

/// The state of a provider and model that was kept.
pub fn restore_governor_record(record: PersistedGovernorRecord) -> (r: GovernorState)
    ensures
        r == kept_governor(record),
{
    GovernorState {
        throttled_until_ms: record.throttled_until_ms,
        backoff_ms: record.backoff_ms,
        recent_errors: record.recent_errors,
        inflight_count: record.inflight_count,
    }
}

/// The state of a provider and model that was kept.
pub open spec fn kept_governor(record: PersistedGovernorRecord) -> GovernorState {
    GovernorState {
        throttled_until_ms: record.throttled_until_ms,
        backoff_ms: record.backoff_ms,
        recent_errors: record.recent_errors,
        inflight_count: record.inflight_count,
    }
}

/// The state of a provider and model as it is kept. The same state comes back.
pub fn persisted_governor_record(state: &GovernorState) -> (r: PersistedGovernorRecord)
    ensures
        kept_governor(r) == *state,
{
    PersistedGovernorRecord {
        throttled_until_ms: state.throttled_until_ms,
        backoff_ms: state.backoff_ms,
        recent_errors: state.recent_errors,
        inflight_count: state.inflight_count,
    }
}

/// What a worker has used up, as it was kept. Its time goes on from where it was.
pub open spec fn kept_budget(b: PersistedWorkerBudget, now_ms: u64) -> agent::BudgetView {
    agent::BudgetView {
        prompt_tokens: b.prompt_tokens,
        output_tokens: b.output_tokens,
        cached_tokens: b.cached_tokens,
        estimated_cost_usd: b.estimated_cost_usd@,
        elapsed_ms: b.elapsed_ms,
        started_at_ms: if now_ms >= b.elapsed_ms {
            (now_ms - b.elapsed_ms) as u64
        } else {
            0
        },
        exceeded: b.exceeded,
        exceeded_reason: text::opt_text(b.exceeded_reason),
        paused_reason: text::opt_text(b.paused_reason),
    }
}

/// A budget whose time goes on from where it was.
pub open spec fn resumed_budget(b: agent::BudgetView, now_ms: u64) -> agent::BudgetView {
    agent::BudgetView {
        started_at_ms: if now_ms >= b.elapsed_ms {
            (now_ms - b.elapsed_ms) as u64
        } else {
            0
        },
        ..b
    }
}

/// What a worker has used up, as it was kept.
pub fn restore_worker_budget(value: PersistedWorkerBudget, now_ms: u64) -> (r: WorkerBudgetState)
    ensures
        r@ == kept_budget(value, now_ms),
{
    WorkerBudgetState {
        prompt_tokens: value.prompt_tokens,
        output_tokens: value.output_tokens,
        cached_tokens: value.cached_tokens,
        estimated_cost_usd: value.estimated_cost_usd,
        elapsed_ms: value.elapsed_ms,
        started_at_ms: now_ms.saturating_sub(value.elapsed_ms),
        exceeded: value.exceeded,
        exceeded_reason: value.exceeded_reason,
        paused_reason: value.paused_reason,
    }
}

/// Whether a record says what a worker has used up.
pub open spec fn budget_is_written(r: PersistedWorkerBudget, b: agent::BudgetView) -> bool {
    &&& r.prompt_tokens == b.prompt_tokens
    &&& r.output_tokens == b.output_tokens
    &&& r.cached_tokens == b.cached_tokens
    &&& r.estimated_cost_usd@ == b.estimated_cost_usd
    &&& r.elapsed_ms == b.elapsed_ms
    &&& r.exceeded == b.exceeded
    &&& text::opt_text(r.exceeded_reason) == b.exceeded_reason
    &&& text::opt_text(r.paused_reason) == b.paused_reason
}

/// What a worker has used up, as it is kept. It comes back with its time going on.
pub fn persist_worker_budget(value: &WorkerBudgetState) -> (r: PersistedWorkerBudget)
    ensures
        budget_is_written(r, value@),
        forall|now_ms: u64| #[trigger]
            kept_budget(r, now_ms) == resumed_budget(value@, now_ms),
{
    PersistedWorkerBudget {
        prompt_tokens: value.prompt_tokens,
        output_tokens: value.output_tokens,
        cached_tokens: value.cached_tokens,
        estimated_cost_usd: value.estimated_cost_usd.clone(),
        elapsed_ms: value.elapsed_ms,
        exceeded: value.exceeded,
        exceeded_reason: value.exceeded_reason.clone(),
        paused_reason: value.paused_reason.clone(),
    }
}

/// A checkpoint that was kept.
pub open spec fn kept_checkpoint(c: PersistedWorkerCheckpoint) -> agent::CheckpointView {
    agent::CheckpointView {
        last_successful_turn_id: text::opt_text(c.last_successful_turn_id),
        worktree_path: text::opt_text(c.worktree_path),
        branch_name: text::opt_text(c.branch_name),
        validation_retries: c.validation_retries,
        last_validation_error: text::opt_text(c.last_validation_error),
        retry_count: c.retry_count,
    }
}

/// A checkpoint that was kept.
pub fn restore_worker_checkpoint(value: PersistedWorkerCheckpoint) -> (r: WorkerCheckpoint)
    ensures
        r@ == kept_checkpoint(value),
{
    WorkerCheckpoint {
        last_successful_turn_id: value.last_successful_turn_id,
        worktree_path: value.worktree_path,
        branch_name: value.branch_name,
        validation_retries: value.validation_retries,
        last_validation_error: value.last_validation_error,
        retry_count: value.retry_count,
    }
}

/// A checkpoint as it is kept. The same checkpoint comes back.
pub fn persist_worker_checkpoint(value: &WorkerCheckpoint) -> (r: PersistedWorkerCheckpoint)
    ensures
        kept_checkpoint(r) == value@,
{
    PersistedWorkerCheckpoint {
        last_successful_turn_id: value.last_successful_turn_id.clone(),
        worktree_path: value.worktree_path.clone(),
        branch_name: value.branch_name.clone(),
        validation_retries: value.validation_retries,
        last_validation_error: value.last_validation_error.clone(),
        retry_count: value.retry_count,
    }
}

/// The role of a name. An unknown name is that of an agent by itself.
pub open spec fn role_of(name: Seq<char>) -> AgentRole {
    if name == constants::AGENT_ROLE_FOREMAN@ {
        AgentRole::Foreman
    } else if name == constants::AGENT_ROLE_WORKER@ {
        AgentRole::Worker
    } else {
        AgentRole::Standalone
    }
}

fn read_role(name: &str) -> (r: AgentRole)
    ensures
        r == role_of(name@),
{
    if same_text(name, constants::AGENT_ROLE_FOREMAN) {
        AgentRole::Foreman
    } else if same_text(name, constants::AGENT_ROLE_WORKER) {
        AgentRole::Worker
    } else {
        AgentRole::Standalone
    }
}

/// The role of the name of a role is that role.
pub proof fn lemma_role_of(role: AgentRole)
    ensures
        role_of(agent::role_name(role)) == role,
{
    reveal_strlit("foreman");
    reveal_strlit("worker");
    reveal_strlit("standalone");
    assert(constants::AGENT_ROLE_FOREMAN@.len() == 7);
    assert(constants::AGENT_ROLE_WORKER@.len() == 6);
    assert(constants::AGENT_ROLE_STANDALONE@.len() == 10);
}

/// How many events say that a turn is complete.
pub open spec fn completed_turns(events: Seq<models::EventView>) -> nat
    decreases events.len(),
{
    if events.len() == 0 {
        0
    } else {
        completed_turns(events.drop_last()) + if events.last().method
            == constants::EVENT_METHOD_TURN_COMPLETED@ {
            1nat
        } else {
            0nat
        }
    }
}

/// The turn of the last event that says that one is complete.
pub open spec fn last_completed_turn(events: Seq<models::EventView>) -> Option<Seq<char>>
    decreases events.len(),
{
    if events.len() == 0 {
        None
    } else if events.last().method == constants::EVENT_METHOD_TURN_COMPLETED@ {
        protocol::turn_of(events.last().params)
    } else {
        last_completed_turn(events.drop_last())
    }
}

fn count_completed(events: &Vec<AgentEventDto>) -> (r: usize)
    ensures
        r == completed_turns(models::event_views(events@)),
{
    let ghost all = models::event_views(events@);
    let mut n: usize = 0;
    let mut i: usize = 0;
    assert(all.take(0) == Seq::<models::EventView>::empty());
    while i < events.len()
        invariant
            i <= events@.len(),
            n <= i,
            all == models::event_views(events@),
            n == completed_turns(all.take(i as int)),
        decreases events@.len() - i,
    {
        proof {
            assert(all.take(i + 1).drop_last() == all.take(i as int));
            assert(all.take(i + 1).last() == events@[i as int]@);
        }
        if same_text(events[i].method.as_str(), constants::EVENT_METHOD_TURN_COMPLETED) {
            n += 1;
        }
        i += 1;
    }
    assert(all.take(i as int) == all);
    n
}

fn find_completed_turn(events: &Vec<AgentEventDto>) -> (r: Option<String>)
    ensures
        text::opt_text(r) == last_completed_turn(models::event_views(events@)),
{
    let ghost all = models::event_views(events@);
    let mut i: usize = events.len();
    assert(all.take(i as int) == all);
    while i > 0
        invariant
            i <= events@.len(),
            all == models::event_views(events@),
            last_completed_turn(all) == last_completed_turn(all.take(i as int)),
        decreases i,
    {
        proof {
            assert(all.take(i as int).drop_last() == all.take(i - 1));
            assert(all.take(i as int).last() == events@[i - 1]@);
        }
        if same_text(events[i - 1].method.as_str(), constants::EVENT_METHOD_TURN_COMPLETED) {
            return parse_turn_id(&events[i - 1].params);
        }
        i -= 1;
    }
    None
}

/// What is wrong with an agent that was kept.
pub open spec fn agent_problem(p: PersistedAgentRecord) -> Option<Seq<Seq<char>>> {
    json::either(
        id_problem(p.id@, "invalid persisted agent id"@),
        json::either(
            opt_id_problem(text::opt_text(p.project_id), "invalid persisted project id"@),
            json::either(
                opt_id_problem(text::opt_text(p.foreman_id), "invalid persisted foreman id"@),
                opt_id_problem(text::opt_text(p.job_id), "invalid persisted agent job id"@),
            ),
        ),
    )
}

/// An agent that was kept. What older states did not keep is made up for: the turns that it
/// completed and its checkpoint from its events, and the time at which it was made.
pub open spec fn kept_agent(p: PersistedAgentRecord, now_ms: u64) -> agent::AgentView {
    let events = models::event_views(p.events@);
    agent::AgentView {
        id: id_of(p.id@),
        thread_id: p.thread_id@,
        active_turn_id: text::opt_text(p.active_turn_id),
        prompt: text::opt_text(p.prompt),
        cwd: text::opt_text(p.cwd),
        restart_attempts: p.restart_attempts,
        turns_completed: if p.turns_completed == 0 {
            completed_turns(events) as u32
        } else {
            p.turns_completed
        },
        validation_retries: p.validation_retries,
        last_validation_error: text::opt_text(p.last_validation_error),
        worktree_path: text::opt_text(p.worktree_path),
        branch_name: text::opt_text(p.branch_name),
        model: text::opt_text(p.model),
        model_provider: text::opt_text(p.model_provider),
        governor_key: json::either(
            text::opt_text(p.governor_key),
            governor::key_of(text::opt_text(p.model_provider), text::opt_text(p.model)),
        ),
        governor_inflight: p.governor_inflight,
        throttled: p.throttled,
        retry_at_ms: p.retry_at_ms,
        throttle_reason: text::opt_text(p.throttle_reason),
        failure_report: models::opt_failure(p.failure_report),
        budget: match p.budget {
            Some(b) => kept_budget(b, now_ms),
            None => agent::fresh_budget(now_ms),
        },
        checkpoint: match p.checkpoint {
            Some(c) => kept_checkpoint(c),
            None => agent::CheckpointView {
                last_successful_turn_id: last_completed_turn(events),
                worktree_path: text::opt_text(p.worktree_path),
                branch_name: text::opt_text(p.branch_name),
                validation_retries: p.validation_retries,
                last_validation_error: text::opt_text(p.last_validation_error),
                retry_count: 0,
            },
        },
        status: p.status@,
        callback: kept_callback(p.callback),
        role: role_of(p.role@),
        project_id: opt_id_of(text::opt_text(p.project_id)),
        foreman_id: opt_id_of(text::opt_text(p.foreman_id)),
        error: text::opt_text(p.error),
        result: models::opt_result(p.result),
        job_id: opt_id_of(text::opt_text(p.job_id)),
        created_at: if p.created_at == 0 {
            p.updated_at
        } else {
            p.created_at
        },
        updated_at: p.updated_at,
        events,
    }
}

fn restore_checkpoint(
    kept: Option<PersistedWorkerCheckpoint>,
    events: &Vec<AgentEventDto>,
    worktree_path: &Option<String>,
    branch_name: &Option<String>,
    validation_retries: u32,
    last_validation_error: &Option<String>,
) -> (r: WorkerCheckpoint)
    ensures
        r@ == (match kept {
            Some(c) => kept_checkpoint(c),
            None => agent::CheckpointView {
                last_successful_turn_id: last_completed_turn(models::event_views(events@)),
                worktree_path: text::opt_text(*worktree_path),
                branch_name: text::opt_text(*branch_name),
                validation_retries,
                last_validation_error: text::opt_text(*last_validation_error),
                retry_count: 0,
            },
        }),
{
    match kept {
        Some(c) => restore_worker_checkpoint(c),
        None => WorkerCheckpoint {
            last_successful_turn_id: find_completed_turn(events),
            worktree_path: worktree_path.clone(),
            branch_name: branch_name.clone(),
            validation_retries,
            last_validation_error: last_validation_error.clone(),
            retry_count: 0,
        },
    }
}

/// The agent that was kept.
pub fn restore_agent_record(record: PersistedAgentRecord, now_ms: u64) -> (r: Result<
    AgentRecord,
    ForemanError,
>)
    ensures
        match agent_problem(record) {
            None => r matches Ok(a) && a@ == kept_agent(record, now_ms),
            Some(chain) => r matches Err(e) && e@ == chain,
        },
{
    let role = read_role(record.role.as_str());
    let id = match read_id(record.id.as_str(), "invalid persisted agent id") {
        Ok(id) => id,
        Err(e) => {
            return Err(e);
        },
    };
    let project_id = match read_opt_id(&record.project_id, "invalid persisted project id") {
        Ok(id) => id,
        Err(e) => {
            return Err(e);
        },
    };
    let foreman_id = match read_opt_id(&record.foreman_id, "invalid persisted foreman id") {
        Ok(id) => id,
        Err(e) => {
            return Err(e);
        },
    };
    let job_id = match read_opt_id(&record.job_id, "invalid persisted agent job id") {
        Ok(id) => id,
        Err(e) => {
            return Err(e);
        },
    };
    let callback = restore_persisted_callback(record.callback);
    let counted: usize = count_completed(&record.events);
    let turns_completed: u32 = if record.turns_completed == 0 {
        counted as u32
    } else {
        record.turns_completed
    };
    let key = match record.governor_key {
        Some(key) => Some(key),
        None => governor_key(opt_ref(&record.model_provider), opt_ref(&record.model)),
    };
    let checkpoint = restore_checkpoint(
        record.checkpoint,
        &record.events,
        &record.worktree_path,
        &record.branch_name,
        record.validation_retries,
        &record.last_validation_error,
    );
    let budget = match record.budget {
        Some(b) => restore_worker_budget(b, now_ms),
        None => WorkerBudgetState::new(now_ms),
    };
    Ok(
        AgentRecord {
            id,
            thread_id: record.thread_id,
            active_turn_id: record.active_turn_id,
            prompt: record.prompt,
            cwd: record.cwd,
            restart_attempts: record.restart_attempts,
            turns_completed,
            validation_retries: record.validation_retries,
            last_validation_error: record.last_validation_error,
            worktree_path: record.worktree_path,
            branch_name: record.branch_name,
            model: record.model,
            model_provider: record.model_provider,
            governor_key: key,
            governor_inflight: record.governor_inflight,
            throttled: record.throttled,
            retry_at_ms: record.retry_at_ms,
            throttle_reason: record.throttle_reason,
            failure_report: record.failure_report,
            budget,
            checkpoint,
            status: record.status,
            callback,
            role,
            project_id,
            foreman_id,
            error: record.error,
            result: record.result,
            job_id,
            created_at: if record.created_at == 0 {
                record.updated_at
            } else {
                record.created_at
            },
            updated_at: record.updated_at,
            events: record.events,
        },
    )
}

/// An agent as it comes back after a run: its time goes on from where it was, and what counts as
/// unknown in what was kept is made up for.
pub open spec fn resumed(a: agent::AgentView, now_ms: u64) -> agent::AgentView {
    agent::AgentView {
        turns_completed: if a.turns_completed == 0 {
            completed_turns(a.events) as u32
        } else {
            a.turns_completed
        },
        governor_key: json::either(
            a.governor_key,
            governor::key_of(a.model_provider, a.model),
        ),
        budget: resumed_budget(a.budget, now_ms),
        created_at: if a.created_at == 0 {
            a.updated_at
        } else {
            a.created_at
        },
        ..a
    }
}

/// Whether a record says all of an agent, with its identifiers as texts.
pub open spec fn agent_is_written(r: PersistedAgentRecord, a: agent::AgentView) -> bool {
    &&& r.id@ == ids::uuid_text(a.id)
    &&& r.thread_id@ == a.thread_id
    &&& text::opt_text(r.active_turn_id) == a.active_turn_id
    &&& text::opt_text(r.prompt) == a.prompt
    &&& text::opt_text(r.cwd) == a.cwd
    &&& r.restart_attempts == a.restart_attempts
    &&& r.turns_completed == a.turns_completed
    &&& r.validation_retries == a.validation_retries
    &&& text::opt_text(r.last_validation_error) == a.last_validation_error
    &&& text::opt_text(r.worktree_path) == a.worktree_path
    &&& text::opt_text(r.branch_name) == a.branch_name
    &&& text::opt_text(r.model) == a.model
    &&& text::opt_text(r.model_provider) == a.model_provider
    &&& text::opt_text(r.governor_key) == a.governor_key
    &&& r.governor_inflight == a.governor_inflight
    &&& r.throttled == a.throttled
    &&& r.retry_at_ms == a.retry_at_ms
    &&& text::opt_text(r.throttle_reason) == a.throttle_reason
    &&& models::opt_failure(r.failure_report) == a.failure_report
    &&& r.budget matches Some(b) && budget_is_written(b, a.budget)
    &&& r.checkpoint matches Some(c) && kept_checkpoint(c) == a.checkpoint
    &&& r.status@ == a.status
    &&& kept_callback(r.callback) == a.callback
    &&& r.role@ == agent::role_name(a.role)
    &&& text::opt_text(r.project_id) == ids::opt_uuid_text(a.project_id)
    &&& text::opt_text(r.foreman_id) == ids::opt_uuid_text(a.foreman_id)
    &&& text::opt_text(r.error) == a.error
    &&& models::opt_result(r.result) == a.result
    &&& text::opt_text(r.job_id) == ids::opt_uuid_text(a.job_id)
    &&& r.created_at == a.created_at
    &&& r.updated_at == a.updated_at
    &&& models::event_views(r.events@) == a.events
}

/// The agent as it is kept. The same agent comes back, at whatever time, with its time going on.
pub fn persisted_agent_record(agent: &AgentRecord) -> (r: PersistedAgentRecord)
    ensures
        agent_is_written(r, agent@),
        agent_problem(r) is None,
        forall|now_ms: u64| #[trigger] kept_agent(r, now_ms) == resumed(agent@, now_ms),
{
    let id = id_text(agent.id);
    let budget = persist_worker_budget(&agent.budget);
    let ghost kept = budget;
    let r = PersistedAgentRecord {
        id,
        thread_id: agent.thread_id.clone(),
        active_turn_id: agent.active_turn_id.clone(),
        prompt: agent.prompt.clone(),
        cwd: agent.cwd.clone(),
        restart_attempts: agent.restart_attempts,
        turns_completed: agent.turns_completed,
        validation_retries: agent.validation_retries,
        last_validation_error: agent.last_validation_error.clone(),
        worktree_path: agent.worktree_path.clone(),
        branch_name: agent.branch_name.clone(),
        model: agent.model.clone(),
        model_provider: agent.model_provider.clone(),
        governor_key: agent.governor_key.clone(),
        governor_inflight: agent.governor_inflight,
        throttled: agent.throttled,
        retry_at_ms: agent.retry_at_ms,
        throttle_reason: agent.throttle_reason.clone(),
        failure_report: clone_opt_failure(&agent.failure_report),
        budget: Some(budget),
        checkpoint: Some(persist_worker_checkpoint(&agent.checkpoint)),
        status: agent.status.clone(),
        callback: persist_worker_callback(&agent.callback),
        role: agent.role.as_str().to_owned(),
        project_id: write_opt_id(agent.project_id),
        foreman_id: write_opt_id(agent.foreman_id),
        error: agent.error.clone(),
        result: clone_opt_result(&agent.result),
        job_id: write_opt_id(agent.job_id),
        created_at: agent.created_at,
        updated_at: agent.updated_at,
        events: clone_events(&agent.events),
    };
    proof {
        lemma_role_of(agent.role);
        assert(opt_id_problem(
            text::opt_text(r.project_id),
            "invalid persisted project id"@,
        ) is None);
        assert(opt_id_problem(
            text::opt_text(r.foreman_id),
            "invalid persisted foreman id"@,
        ) is None);
        assert(opt_id_problem(text::opt_text(r.job_id), "invalid persisted agent job id"@) is None);
        assert forall|now_ms: u64| #[trigger] kept_agent(r, now_ms) == resumed(agent@, now_ms) by {
            assert(kept_budget(kept, now_ms) == resumed_budget(agent@.budget, now_ms));
        }
    }
    r
}

/// Texts by the identifiers that their keys hold.
pub open spec fn texts_by_id(items: Seq<(Seq<char>, String)>) -> Map<u128, Seq<char>>
    decreases items.len(),
{
    if items.len() == 0 {
        Map::empty()
    } else {
        texts_by_id(items.drop_last()).insert(id_of(items.last().0), items.last().1@)
    }
}

fn read_texts_by_id(kept: &TextMap<String>, context: &str) -> (r: Result<
    IdMap<String>,
    ForemanError,
>)
    ensures
        match ids_problem(keys_of(kept.items()), context@) {
            None => r matches Ok(m) && job::text_values(m@) == texts_by_id(kept.items()),
            Some(chain) => r matches Err(e) && e@ == chain,
        },
{
    let ghost items = kept.items();
    let ghost keys = keys_of(items);
    let n: usize = kept.len();
    let mut out: IdMap<String> = IdMap::new();
    let mut i: usize = 0;
    proof {
        assert(keys.take(0) == Seq::<Seq<char>>::empty());
        assert(items.take(0) == Seq::<(Seq<char>, String)>::empty());
        assert(job::text_values(out@) == Map::<u128, Seq<char>>::empty());
    }
    while i < n
        invariant
            i <= n,
            n == kept.items().len(),
            items == kept.items(),
            keys == keys_of(items),
            ids_problem(keys.take(i as int), context@) is None,
            job::text_values(out@) == texts_by_id(items.take(i as int)),
        decreases n - i,
    {
        proof {
            assert(keys.take(i + 1).drop_last() == keys.take(i as int));
            assert(keys.take(i + 1).last() == items[i as int].0);
            assert(items.take(i + 1).drop_last() == items.take(i as int));
            assert(items.take(i + 1).last() == items[i as int]);
        }
        match read_id(kept.key_at(i).as_str(), context) {
            Ok(id) => {
                let ghost before = out@;
                let value = kept.value_at(i).clone();
                out.insert(id, value);
                assert(job::text_values(out@) == job::text_values(before).insert(id, value@));
            },
            Err(e) => {
                proof {
                    lemma_ids_problem(keys, context@, i + 1);
                }
                return Err(e);
            },
        }
        i += 1;
    }
    proof {
        assert(keys.take(n as int) == keys);
        assert(items.take(n as int) == items);
    }
    Ok(out)
}

/// The texts of a map that is keyed by identifiers, by the texts of those.
fn write_texts_by_id(map: &IdMap<String>) -> (r: TextMap<String>)
    ensures
        keyed_by_text(vars::values_of(r@), job::text_values(map@)),
        forall|context: Seq<char>| #[trigger] ids_problem(keys_of(r.items()), context) is None,
        texts_by_id(r.items()) == job::text_values(map@),
{
    let ghost items = map.items();
    let n: usize = map.len();
    let mut out: TextMap<String> = TextMap::new();
    let mut i: usize = 0;
    proof {
        assert(items.take(0) == Seq::<(u128, String)>::empty());
        assert(keys_of(out.items()) == Seq::<Seq<char>>::empty());
        assert(job::text_values(Map::<u128, String>::empty()) == Map::<u128, Seq<char>>::empty());
    }
    while i < n
        invariant
            i <= n,
            n == items.len(),
            items == map.items(),
            map.coherent(),
            out.coherent(),
            out.items().len() == i,
            forall|k: int|
                0 <= k < i ==> ids::uuid_parsed((#[trigger] out.items()[k]).0) == Ok::<
                    u128,
                    Seq<char>,
                >(items[k].0),
            forall|k: int|
                0 <= k < i ==> (#[trigger] out.items()[k]).0 == ids::uuid_text(items[k].0)
                    && out.items()[k].1@ == items[k].1@,
            forall|context: Seq<char>| #[trigger]
                ids_problem(keys_of(out.items()), context) is None,
            texts_by_id(out.items()) == job::text_values(
                text_map::map_of(items.take(i as int)),
            ),
        decreases n - i,
    {
        let id = map.key_at(i);
        let key = id_text(id);
        let value = map.value_at(i).clone();
        let ghost before = out.items();
        proof {
            assert(items.take(i + 1).drop_last() == items.take(i as int));
            assert(items.take(i + 1).last() == items[i as int]);
            if out@.dom().contains(key@) {
                assert(text_map::has_key(before, key@));
                let k = choose|k: int| 0 <= k < before.len() && (#[trigger] before[k]).0 == key@;
                assert(items[k].0 == items[i as int].0);
                assert(false);
            }
        }
        out.insert(key, value);
        proof {
            let after = out.items();
            assert(after == before.push((key@, value)));
            assert(after.drop_last() == before);
            assert(keys_of(after) == keys_of(before).push(key@));
            assert(keys_of(after).drop_last() == keys_of(before));
            assert forall|context: Seq<char>| #[trigger]
                ids_problem(keys_of(after), context) is None by {
                assert(ids_problem(keys_of(before), context) is None);
                assert(id_problem(key@, context) is None);
            }
            let part = text_map::map_of(items.take(i as int));
            assert(job::text_values(part.insert(id, items[i as int].1)) == job::text_values(
                part,
            ).insert(id, value@));
        }
        i += 1;
    }
    proof {
        assert(items.take(n as int) == items);
        lemma_keyed_by_text(
            out.items(),
            vars::values_of(out@),
            items,
            job::text_values(map@),
        );
    }
    out
}

/// Labels by the identifiers that their keys hold.
pub open spec fn labels_by_id(items: Seq<(Seq<char>, TextMap<String>)>) -> Map<
    u128,
    Map<Seq<char>, Seq<char>>,
>
    decreases items.len(),
{
    if items.len() == 0 {
        Map::empty()
    } else {
        labels_by_id(items.drop_last()).insert(
            id_of(items.last().0),
            vars::values_of(items.last().1@),
        )
    }
}

fn read_labels_by_id(kept: &TextMap<TextMap<String>>, context: &str) -> (r: Result<
    IdMap<TextMap<String>>,
    ForemanError,
>)
    ensures
        match ids_problem(keys_of(kept.items()), context@) {
            None => r matches Ok(m) && job::label_values(m@) == labels_by_id(kept.items()),
            Some(chain) => r matches Err(e) && e@ == chain,
        },
{
    let ghost items = kept.items();
    let ghost keys = keys_of(items);
    let n: usize = kept.len();
    let mut out: IdMap<TextMap<String>> = IdMap::new();
    let mut i: usize = 0;
    proof {
        assert(keys.take(0) == Seq::<Seq<char>>::empty());
        assert(items.take(0) == Seq::<(Seq<char>, TextMap<String>)>::empty());
        assert(job::label_values(out@) == Map::<u128, Map<Seq<char>, Seq<char>>>::empty());
    }
    while i < n
        invariant
            i <= n,
            n == kept.items().len(),
            items == kept.items(),
            keys == keys_of(items),
            ids_problem(keys.take(i as int), context@) is None,
            job::label_values(out@) == labels_by_id(items.take(i as int)),
        decreases n - i,
    {
        proof {
            assert(keys.take(i + 1).drop_last() == keys.take(i as int));
            assert(keys.take(i + 1).last() == items[i as int].0);
            assert(items.take(i + 1).drop_last() == items.take(i as int));
            assert(items.take(i + 1).last() == items[i as int]);
        }
        match read_id(kept.key_at(i).as_str(), context) {
            Ok(id) => {
                let ghost before = out@;
                let value = clone_vars(kept.value_at(i));
                out.insert(id, value);
                assert(job::label_values(out@) == job::label_values(before).insert(
                    id,
                    vars::values_of(value@),
                ));
            },
            Err(e) => {
                proof {
                    lemma_ids_problem(keys, context@, i + 1);
                }
                return Err(e);
            },
        }
        i += 1;
    }
    proof {
        assert(keys.take(n as int) == keys);
        assert(items.take(n as int) == items);
    }
    Ok(out)
}

/// Labels that are kept.
pub open spec fn kept_labels(m: Map<Seq<char>, TextMap<String>>) -> Map<
    Seq<char>,
    Map<Seq<char>, Seq<char>>,
> {
    m.map_values(|t: TextMap<String>| vars::values_of(t@))
}

/// The labels of a map that is keyed by identifiers, by the texts of those.
fn write_labels_by_id(map: &IdMap<TextMap<String>>) -> (r: TextMap<TextMap<String>>)
    ensures
        keyed_by_text(kept_labels(r@), job::label_values(map@)),
        forall|context: Seq<char>| #[trigger] ids_problem(keys_of(r.items()), context) is None,
        labels_by_id(r.items()) == job::label_values(map@),
{
    let ghost items = map.items();
    let n: usize = map.len();
    let mut out: TextMap<TextMap<String>> = TextMap::new();
    let mut i: usize = 0;
    proof {
        assert(items.take(0) == Seq::<(u128, TextMap<String>)>::empty());
        assert(keys_of(out.items()) == Seq::<Seq<char>>::empty());
        assert(job::label_values(Map::<u128, TextMap<String>>::empty()) == Map::<
            u128,
            Map<Seq<char>, Seq<char>>,
        >::empty());
    }
    while i < n
        invariant
            i <= n,
            n == items.len(),
            items == map.items(),
            map.coherent(),
            out.coherent(),
            out.items().len() == i,
            forall|k: int|
                0 <= k < i ==> ids::uuid_parsed((#[trigger] out.items()[k]).0) == Ok::<
                    u128,
                    Seq<char>,
                >(items[k].0),
            forall|k: int|
                0 <= k < i ==> (#[trigger] out.items()[k]).0 == ids::uuid_text(items[k].0)
                    && vars::values_of(out.items()[k].1@) == vars::values_of(
                    items[k].1@,
                ),
            forall|context: Seq<char>| #[trigger]
                ids_problem(keys_of(out.items()), context) is None,
            labels_by_id(out.items()) == job::label_values(
                text_map::map_of(items.take(i as int)),
            ),
        decreases n - i,
    {
        let id = map.key_at(i);
        let key = id_text(id);
        let value = clone_vars(map.value_at(i));
        let ghost before = out.items();
        proof {
            assert(items.take(i + 1).drop_last() == items.take(i as int));
            assert(items.take(i + 1).last() == items[i as int]);
            if out@.dom().contains(key@) {
                assert(text_map::has_key(before, key@));
                let k = choose|k: int| 0 <= k < before.len() && (#[trigger] before[k]).0 == key@;
                assert(items[k].0 == items[i as int].0);
                assert(false);
            }
        }
        out.insert(key, value);
        proof {
            let after = out.items();
            assert(after == before.push((key@, value)));
            assert(after.drop_last() == before);
            assert(keys_of(after) == keys_of(before).push(key@));
            assert(keys_of(after).drop_last() == keys_of(before));
            assert forall|context: Seq<char>| #[trigger]
                ids_problem(keys_of(after), context) is None by {
                assert(ids_problem(keys_of(before), context) is None);
                assert(id_problem(key@, context) is None);
            }
            let part = text_map::map_of(items.take(i as int));
            assert(job::label_values(part.insert(id, items[i as int].1)) == job::label_values(
                part,
            ).insert(id, vars::values_of(value@)));
        }
        i += 1;
    }
    proof {
        assert(items.take(n as int) == items);
        lemma_keyed_by_text(out.items(), kept_labels(out@), items, job::label_values(map@));
    }
    out
}

/// Lists of identifiers by the identifiers that their keys hold.
pub open spec fn lists_by_id(items: Seq<(Seq<char>, Vec<String>)>) -> Map<u128, Seq<u128>>
    decreases items.len(),
{
    if items.len() == 0 {
        Map::empty()
    } else {
        lists_by_id(items.drop_last()).insert(
            id_of(items.last().0),
            ids_of(text::texts(items.last().1@)),
        )
    }
}

/// What is wrong with the first entry whose key or one of whose values holds no identifier.
pub open spec fn lists_problem(
    items: Seq<(Seq<char>, Vec<String>)>,
    context: Seq<char>,
    value_context: Seq<char>,
) -> Option<Seq<Seq<char>>>
    decreases items.len(),
{
    if items.len() == 0 {
        None
    } else {
        json::either(
            lists_problem(items.drop_last(), context, value_context),
            json::either(
                id_problem(items.last().0, context),
                ids_problem(text::texts(items.last().1@), value_context),
            ),
        )
    }
}

proof fn lemma_lists_problem(
    items: Seq<(Seq<char>, Vec<String>)>,
    context: Seq<char>,
    value_context: Seq<char>,
    n: int,
)
    requires
        0 <= n <= items.len(),
        lists_problem(items.take(n), context, value_context) is Some,
    ensures
        lists_problem(items, context, value_context) == lists_problem(
            items.take(n),
            context,
            value_context,
        ),
    decreases items.len(),
{
    if n < items.len() {
        assert(items.drop_last().take(n) == items.take(n));
        lemma_lists_problem(items.drop_last(), context, value_context, n);
    } else {
        assert(items.take(n) == items);
    }
}

fn read_lists_by_id(kept: &TextMap<Vec<String>>, context: &str, value_context: &str) -> (r: Result<
    IdMap<Vec<u128>>,
    ForemanError,
>)
    ensures
        match lists_problem(kept.items(), context@, value_context@) {
            None => r matches Ok(m) && job::list_values(m@) == lists_by_id(kept.items()),
            Some(chain) => r matches Err(e) && e@ == chain,
        },
{
    let ghost items = kept.items();
    let n: usize = kept.len();
    let mut out: IdMap<Vec<u128>> = IdMap::new();
    let mut i: usize = 0;
    proof {
        assert(items.take(0) == Seq::<(Seq<char>, Vec<String>)>::empty());
        assert(job::list_values(out@) == Map::<u128, Seq<u128>>::empty());
    }
    while i < n
        invariant
            i <= n,
            n == kept.items().len(),
            items == kept.items(),
            lists_problem(items.take(i as int), context@, value_context@) is None,
            job::list_values(out@) == lists_by_id(items.take(i as int)),
        decreases n - i,
    {
        proof {
            assert(items.take(i + 1).drop_last() == items.take(i as int));
            assert(items.take(i + 1).last() == items[i as int]);
        }
        let id = match read_id(kept.key_at(i).as_str(), context) {
            Ok(id) => id,
            Err(e) => {
                proof {
                    lemma_lists_problem(items, context@, value_context@, i + 1);
                }
                return Err(e);
            },
        };
        match read_ids(kept.value_at(i), value_context) {
            Ok(value) => {
                let ghost before = out@;
                out.insert(id, value);
                assert(job::list_values(out@) == job::list_values(before).insert(id, value@));
            },
            Err(e) => {
                proof {
                    lemma_lists_problem(items, context@, value_context@, i + 1);
                }
                return Err(e);
            },
        }
        i += 1;
    }
    assert(items.take(n as int) == items);
    Ok(out)
}

/// Lists of texts that are kept.
pub open spec fn kept_lists(m: Map<Seq<char>, Vec<String>>) -> Map<Seq<char>, Seq<Seq<char>>> {
    m.map_values(|v: Vec<String>| text::texts(v@))
}

/// The texts of the identifiers in the lists of a map.
pub open spec fn lists_of_texts(m: Map<u128, Seq<u128>>) -> Map<u128, Seq<Seq<char>>> {
    m.map_values(|v: Seq<u128>| id_texts(v))
}

/// The lists of a map that is keyed by identifiers, by the texts of those.
fn write_lists_by_id(map: &IdMap<Vec<u128>>) -> (r: TextMap<Vec<String>>)
    ensures
        keyed_by_text(kept_lists(r@), lists_of_texts(job::list_values(map@))),
        forall|context: Seq<char>, value_context: Seq<char>| #[trigger]
            lists_problem(r.items(), context, value_context) is None,
        lists_by_id(r.items()) == job::list_values(map@),
{
    let ghost items = map.items();
    let n: usize = map.len();
    let mut out: TextMap<Vec<String>> = TextMap::new();
    let mut i: usize = 0;
    proof {
        assert(items.take(0) == Seq::<(u128, Vec<u128>)>::empty());
        assert(job::list_values(Map::<u128, Vec<u128>>::empty()) == Map::<u128, Seq<u128>>::empty());
    }
    while i < n
        invariant
            i <= n,
            n == items.len(),
            items == map.items(),
            map.coherent(),
            out.coherent(),
            out.items().len() == i,
            forall|k: int|
                0 <= k < i ==> ids::uuid_parsed((#[trigger] out.items()[k]).0) == Ok::<
                    u128,
                    Seq<char>,
                >(items[k].0),
            forall|k: int|
                0 <= k < i ==> (#[trigger] out.items()[k]).0 == ids::uuid_text(items[k].0)
                    && text::texts(out.items()[k].1@) == id_texts(items[k].1@),
            forall|context: Seq<char>, value_context: Seq<char>| #[trigger]
                lists_problem(out.items(), context, value_context) is None,
            lists_by_id(out.items()) == job::list_values(
                text_map::map_of(items.take(i as int)),
            ),
        decreases n - i,
    {
        let id = map.key_at(i);
        let key = id_text(id);
        let value = write_ids(map.value_at(i));
        let ghost before = out.items();
        proof {
            assert(items.take(i + 1).drop_last() == items.take(i as int));
            assert(items.take(i + 1).last() == items[i as int]);
            if out@.dom().contains(key@) {
                assert(text_map::has_key(before, key@));
                let k = choose|k: int| 0 <= k < before.len() && (#[trigger] before[k]).0 == key@;
                assert(items[k].0 == items[i as int].0);
                assert(false);
            }
        }
        out.insert(key, value);
        proof {
            let after = out.items();
            assert(after == before.push((key@, value)));
            assert(after.drop_last() == before);
            assert forall|context: Seq<char>, value_context: Seq<char>| #[trigger]
                lists_problem(after, context, value_context) is None by {
                assert(lists_problem(before, context, value_context) is None);
                assert(id_problem(key@, context) is None);
                assert(ids_problem(text::texts(value@), value_context) is None);
            }
            let part = text_map::map_of(items.take(i as int));
            assert(job::list_values(part.insert(id, items[i as int].1)) == job::list_values(
                part,
            ).insert(id, items[i as int].1@));
        }
        i += 1;
    }
    proof {
        assert(items.take(n as int) == items);
        lemma_keyed_by_text(
            out.items(),
            kept_lists(out@),
            items,
            lists_of_texts(job::list_values(map@)),
        );
    }
    out
}

/// What is wrong with a job that was kept.
pub open spec fn job_problem(p: PersistedJobRecord) -> Option<Seq<Seq<char>>> {
    json::either(
        id_problem(p.id@, "invalid persisted job id"@),
        json::either(
            opt_id_problem(text::opt_text(p.project_id), "invalid persisted job project id"@),
            json::either(
                ids_problem(text::texts(p.worker_ids@), "invalid persisted job worker id"@),
                json::either(
                    ids_problem(
                        keys_of(p.worker_labels.items()),
                        "invalid persisted job worker id in labels"@,
                    ),
                    json::either(
                        ids_problem(
                            keys_of(p.worker_names.items()),
                            "invalid persisted job worker id in worker_names"@,
                        ),
                        json::either(
                            lists_problem(
                                p.dependency_graph.items(),
                                "invalid persisted job worker id in deps"@,
                                "invalid persisted job dependency worker id"@,
                            ),
                            ids_problem(
                                keys_of(p.blocked_reasons.items()),
                                "invalid persisted job worker id in blocked_reasons"@,
                            ),
                        ),
                    ),
                ),
            ),
        ),
    )
}

/// A job that was kept. What older states did not keep has the values that it had then.
pub open spec fn kept_job(p: PersistedJobRecord) -> job::JobView {
    job::JobView {
        id: id_of(p.id@),
        project_id: opt_id_of(text::opt_text(p.project_id)),
        status: p.status@,
        worker_ids: ids_of(text::texts(p.worker_ids@)),
        worker_labels: labels_by_id(p.worker_labels.items()),
        merged_branches: text::texts(p.merged_branches@),
        merge_conflicts: text::texts(p.merge_conflicts@),
        worker_names: texts_by_id(p.worker_names.items()),
        dependency_graph: lists_by_id(p.dependency_graph.items()),
        blocked_reasons: texts_by_id(p.blocked_reasons.items()),
        base_branch: match p.base_branch {
            Some(b) => b@,
            None => "main"@,
        },
        merge_strategy: match p.merge_strategy {
            Some(s) => s@,
            None => "manual"@,
        },
        created_at: p.created_at,
        completed_at: p.completed_at,
        updated_at: p.updated_at,
    }
}

/// The job that was kept.
pub fn restore_job_record(record: PersistedJobRecord) -> (r: Result<JobRecord, ForemanError>)
    ensures
        match job_problem(record) {
            None => r matches Ok(j) && j@ == kept_job(record),
            Some(chain) => r matches Err(e) && e@ == chain,
        },
{
    let id = match read_id(record.id.as_str(), "invalid persisted job id") {
        Ok(id) => id,
        Err(e) => {
            return Err(e);
        },
    };
    let project_id = match read_opt_id(&record.project_id, "invalid persisted job project id") {
        Ok(id) => id,
        Err(e) => {
            return Err(e);
        },
    };
    let worker_ids = match read_ids(&record.worker_ids, "invalid persisted job worker id") {
        Ok(v) => v,
        Err(e) => {
            return Err(e);
        },
    };
    let worker_labels = match read_labels_by_id(
        &record.worker_labels,
        "invalid persisted job worker id in labels",
    ) {
        Ok(m) => m,
        Err(e) => {
            return Err(e);
        },
    };
    let worker_names = match read_texts_by_id(
        &record.worker_names,
        "invalid persisted job worker id in worker_names",
    ) {
        Ok(m) => m,
        Err(e) => {
            return Err(e);
        },
    };
    let dependency_graph = match read_lists_by_id(
        &record.dependency_graph,
        "invalid persisted job worker id in deps",
        "invalid persisted job dependency worker id",
    ) {
        Ok(m) => m,
        Err(e) => {
            return Err(e);
        },
    };
    let blocked_reasons = match read_texts_by_id(
        &record.blocked_reasons,
        "invalid persisted job worker id in blocked_reasons",
    ) {
        Ok(m) => m,
        Err(e) => {
            return Err(e);
        },
    };
    Ok(
        JobRecord {
            id,
            project_id,
            status: record.status,
            worker_ids,
            worker_labels,
            merged_branches: record.merged_branches,
            merge_conflicts: record.merge_conflicts,
            worker_names,
            dependency_graph,
            blocked_reasons,
            base_branch: match record.base_branch {
                Some(b) => b,
                None => "main".to_owned(),
            },
            merge_strategy: match record.merge_strategy {
                Some(s) => s,
                None => "manual".to_owned(),
            },
            created_at: record.created_at,
            completed_at: record.completed_at,
            updated_at: record.updated_at,
        },
    )
}

/// Whether a record says all of a job, with its identifiers as texts.
pub open spec fn job_is_written(r: PersistedJobRecord, j: job::JobView) -> bool {
    &&& r.id@ == ids::uuid_text(j.id)
    &&& text::opt_text(r.project_id) == ids::opt_uuid_text(j.project_id)
    &&& r.status@ == j.status
    &&& text::texts(r.worker_ids@) == id_texts(j.worker_ids)
    &&& keyed_by_text(kept_labels(r.worker_labels@), j.worker_labels)
    &&& text::texts(r.merged_branches@) == j.merged_branches
    &&& text::texts(r.merge_conflicts@) == j.merge_conflicts
    &&& text::opt_text(r.base_branch) == Some(j.base_branch)
    &&& text::opt_text(r.merge_strategy) == Some(j.merge_strategy)
    &&& keyed_by_text(vars::values_of(r.worker_names@), j.worker_names)
    &&& keyed_by_text(kept_lists(r.dependency_graph@), lists_of_texts(j.dependency_graph))
    &&& keyed_by_text(vars::values_of(r.blocked_reasons@), j.blocked_reasons)
    &&& r.created_at == j.created_at
    &&& r.completed_at == j.completed_at
    &&& r.updated_at == j.updated_at
}

/// The job as it is kept. The same job comes back.
pub fn persisted_job_record(job: &JobRecord) -> (r: PersistedJobRecord)
    ensures
        job_is_written(r, job@),
        job_problem(r) is None,
        kept_job(r) == job@,
{
    let r = PersistedJobRecord {
        id: id_text(job.id),
        project_id: write_opt_id(job.project_id),
        status: job.status.clone(),
        worker_ids: write_ids(&job.worker_ids),
        worker_labels: write_labels_by_id(&job.worker_labels),
        merged_branches: clone_texts(&job.merged_branches),
        merge_conflicts: clone_texts(&job.merge_conflicts),
        base_branch: Some(job.base_branch.clone()),
        merge_strategy: Some(job.merge_strategy.clone()),
        worker_names: write_texts_by_id(&job.worker_names),
        dependency_graph: write_lists_by_id(&job.dependency_graph),
        blocked_reasons: write_texts_by_id(&job.blocked_reasons),
        created_at: job.created_at,
        completed_at: job.completed_at,
        updated_at: job.updated_at,
    };
    proof {
        assert(opt_id_problem(
            text::opt_text(r.project_id),
            "invalid persisted job project id"@,
        ) is None);
        assert(ids_problem(
            text::texts(r.worker_ids@),
            "invalid persisted job worker id"@,
        ) is None);
        assert(ids_problem(
            keys_of(r.worker_labels.items()),
            "invalid persisted job worker id in labels"@,
        ) is None);
        assert(ids_problem(
            keys_of(r.worker_names.items()),
            "invalid persisted job worker id in worker_names"@,
        ) is None);
        assert(lists_problem(
            r.dependency_graph.items(),
            "invalid persisted job worker id in deps"@,
            "invalid persisted job dependency worker id"@,
        ) is None);
        assert(ids_problem(
            keys_of(r.blocked_reasons.items()),
            "invalid persisted job worker id in blocked_reasons"@,
        ) is None);
    }
    r
}

/// What is kept of a project besides its configuration.
pub struct KeptProject {
    pub id: u128,
    pub path: Seq<char>,
    pub name: Seq<char>,
    pub status: Seq<char>,
    pub foreman_agent_id: Option<u128>,
    pub worker_ids: Seq<u128>,
    pub completed_worker_turns: u64,
    pub callback_status: Map<Seq<char>, Seq<char>>,
    pub foreman_prompt: Seq<char>,
    pub worker_prompt: Seq<char>,
    pub runbook: Seq<char>,
    pub handoff: Option<Seq<char>>,
    pub created_at: u64,
    pub updated_at: u64,
}

/// What is wrong with a project that was kept.
pub open spec fn project_problem(p: PersistedProjectRecord) -> Option<Seq<Seq<char>>> {
    json::either(
        id_problem(p.id@, "invalid persisted project id"@),
        json::either(
            opt_id_problem(
                text::opt_text(p.foreman_agent_id),
                "invalid persisted project foreman id"@,
            ),
            ids_problem(text::texts(p.worker_ids@), "invalid persisted project worker id"@),
        ),
    )
}

/// What was kept of a project.
pub open spec fn kept_project(p: PersistedProjectRecord) -> KeptProject {
    KeptProject {
        id: id_of(p.id@),
        path: p.path@,
        name: p.name@,
        status: p.status@,
        foreman_agent_id: opt_id_of(text::opt_text(p.foreman_agent_id)),
        worker_ids: ids_of(text::texts(p.worker_ids@)),
        completed_worker_turns: p.completed_worker_turns,
        callback_status: vars::values_of(p.lifecycle_callback_status@),
        foreman_prompt: p.runtime.foreman_prompt@,
        worker_prompt: p.runtime.worker_prompt@,
        runbook: p.runtime.runbook@,
        handoff: text::opt_text(p.runtime.handoff),
        created_at: p.created_at,
        updated_at: p.updated_at,
    }
}

/// What is kept of a project.
pub open spec fn keepsake(p: projects::ProjectView) -> KeptProject {
    KeptProject {
        id: p.id,
        path: p.path,
        name: p.name,
        status: p.status,
        foreman_agent_id: p.foreman_agent_id,
        worker_ids: p.worker_ids,
        completed_worker_turns: p.completed_worker_turns,
        callback_status: p.callback_status,
        foreman_prompt: p.runtime.foreman_prompt@,
        worker_prompt: p.runtime.worker_prompt@,
        runbook: p.runtime.runbook@,
        handoff: text::opt_text(p.runtime.handoff),
        created_at: p.created_at,
        updated_at: p.updated_at,
    }
}

/// Whether a project is one that was kept, with the configuration and the files that are there
/// now, or those that were kept where there are none. Each of its callbacks has an outcome.
pub open spec fn comes_back(
    p: projects::ProjectView,
    record: PersistedProjectRecord,
    live_config: Option<ProjectConfig>,
    live_runtime: Option<ProjectRuntimeFiles>,
) -> bool {
    let k = kept_project(record);
    &&& p.id == k.id
    &&& p.path == k.path
    &&& p.name == k.name
    &&& p.status == k.status
    &&& p.foreman_agent_id == k.foreman_agent_id
    &&& p.worker_ids == k.worker_ids
    &&& p.completed_worker_turns == k.completed_worker_turns
    &&& p.callback_status == vars::nothing_run().union_prefer_right(k.callback_status)
    &&& p.created_at == k.created_at
    &&& p.updated_at == k.updated_at
    &&& p.config == (match live_config {
        Some(c) => c,
        None => record.config,
    })
    &&& match live_runtime {
        Some(f) => p.runtime == f,
        None => p.runtime.path@ == k.path && p.runtime.foreman_prompt@ == k.foreman_prompt
            && p.runtime.worker_prompt@ == k.worker_prompt && p.runtime.runbook@ == k.runbook
            && text::opt_text(p.runtime.handoff) == k.handoff,
    }
}

/// The project that was kept.
pub fn restore_project_record(
    record: PersistedProjectRecord,
    live_config: Option<ProjectConfig>,
    live_runtime: Option<ProjectRuntimeFiles>,
) -> (r: Result<ProjectRecord, ForemanError>)
    ensures
        match project_problem(record) {
            None => r matches Ok(p) && comes_back(p@, record, live_config, live_runtime),
            Some(chain) => r matches Err(e) && e@ == chain,
        },
{
    let id = match read_id(record.id.as_str(), "invalid persisted project id") {
        Ok(id) => id,
        Err(e) => {
            return Err(e);
        },
    };
    let foreman_agent_id = match read_opt_id(
        &record.foreman_agent_id,
        "invalid persisted project foreman id",
    ) {
        Ok(id) => id,
        Err(e) => {
            return Err(e);
        },
    };
    let worker_ids = match read_ids(&record.worker_ids, "invalid persisted project worker id") {
        Ok(v) => v,
        Err(e) => {
            return Err(e);
        },
    };
    let config = match live_config {
        Some(c) => c,
        None => record.config,
    };
    let runtime = match live_runtime {
        Some(f) => f,
        None => ProjectRuntimeFiles {
            path: record.path.clone(),
            foreman_prompt: record.runtime.foreman_prompt,
            worker_prompt: record.runtime.worker_prompt,
            runbook: record.runtime.runbook,
            handoff: record.runtime.handoff,
        },
    };
    Ok(
        ProjectRecord {
            id,
            path: record.path,
            name: record.name,
            status: record.status,
            foreman_agent_id,
            worker_ids,
            completed_worker_turns: record.completed_worker_turns,
            config,
            runtime,
            lifecycle_callback_status: normalize_project_lifecycle_callback_status(
                record.lifecycle_callback_status,
            ),
            created_at: record.created_at,
            updated_at: record.updated_at,
        },
    )
}

/// Whether a record says all of a project, with its identifiers as texts.
pub open spec fn project_is_written(r: PersistedProjectRecord, p: projects::ProjectView) -> bool {
    &&& r.id@ == ids::uuid_text(p.id)
    &&& r.path@ == p.path
    &&& r.name@ == p.name
    &&& r.status@ == p.status
    &&& text::opt_text(r.foreman_agent_id) == ids::opt_uuid_text(p.foreman_agent_id)
    &&& text::texts(r.worker_ids@) == id_texts(p.worker_ids)
    &&& r.completed_worker_turns == p.completed_worker_turns
    &&& project::same_config(p.config, r.config)
    &&& r.runtime.foreman_prompt@ == p.runtime.foreman_prompt@
    &&& r.runtime.worker_prompt@ == p.runtime.worker_prompt@
    &&& r.runtime.runbook@ == p.runtime.runbook@
    &&& text::opt_text(r.runtime.handoff) == text::opt_text(p.runtime.handoff)
    &&& vars::values_of(r.lifecycle_callback_status@) == p.callback_status
    &&& r.created_at == p.created_at
    &&& r.updated_at == p.updated_at
}

/// The project as it is kept. The same project comes back.
pub fn persisted_project_record(project: &ProjectRecord) -> (r: PersistedProjectRecord)
    ensures
        project_is_written(r, project@),
        project_problem(r) is None,
        kept_project(r) == keepsake(project@),
        project::same_config(project@.config, r.config),
{
    let r = PersistedProjectRecord {
        id: id_text(project.id),
        path: project.path.clone(),
        name: project.name.clone(),
        status: project.status.clone(),
        foreman_agent_id: write_opt_id(project.foreman_agent_id),
        worker_ids: write_ids(&project.worker_ids),
        completed_worker_turns: project.completed_worker_turns,
        config: project.config.clone(),
        runtime: PersistedRuntimeFiles {
            foreman_prompt: project.runtime.foreman_prompt.clone(),
            worker_prompt: project.runtime.worker_prompt.clone(),
            runbook: project.runtime.runbook.clone(),
            handoff: project.runtime.handoff.clone(),
        },
        lifecycle_callback_status: clone_vars(&project.lifecycle_callback_status),
        created_at: project.created_at,
        updated_at: project.updated_at,
    };
    proof {
        assert(opt_id_problem(
            text::opt_text(r.foreman_agent_id),
            "invalid persisted project foreman id"@,
        ) is None);
        assert(ids_problem(
            text::texts(r.worker_ids@),
            "invalid persisted project worker id"@,
        ) is None);
    }
    r
}

/// An agent that comes back is what it was: who it is, what it was told, did and used up. Only its
/// clock is set so that the time it took goes on from where it was.
pub proof fn law_agents_come_back_as_they_were(a: agent::AgentView, now_ms: u64)
    requires
        now_ms >= a.budget.elapsed_ms,
    ensures
        ({
            let b = resumed(a, now_ms);
            &&& b.id == a.id && b.thread_id == a.thread_id && b.role == a.role && b.status
                == a.status
            &&& b.prompt == a.prompt && b.callback == a.callback && b.result == a.result && b.events
                == a.events
            &&& b.project_id == a.project_id && b.foreman_id == a.foreman_id && b.job_id == a.job_id
            &&& b.worktree_path == a.worktree_path && b.branch_name == a.branch_name
            &&& b.checkpoint == a.checkpoint && b.failure_report == a.failure_report
            &&& b.restart_attempts == a.restart_attempts && b.validation_retries
                == a.validation_retries
            &&& b.active_turn_id == a.active_turn_id && b.throttled == a.throttled && b.retry_at_ms
                == a.retry_at_ms
            &&& b.budget.prompt_tokens == a.budget.prompt_tokens && b.budget.output_tokens
                == a.budget.output_tokens && b.budget.cached_tokens == a.budget.cached_tokens
            &&& b.budget.elapsed_ms == a.budget.elapsed_ms && b.budget.exceeded == a.budget.exceeded
                && b.budget.paused_reason == a.budget.paused_reason
            &&& now_ms - b.budget.started_at_ms == a.budget.elapsed_ms
            &&& a.turns_completed > 0 ==> b.turns_completed == a.turns_completed
            &&& a.created_at > 0 ==> b.created_at == a.created_at
            &&& a.created_at == 0 ==> b.created_at == a.updated_at
            &&& b.updated_at == a.updated_at
            &&& a.governor_key is Some ==> b.governor_key == a.governor_key
        }),
{
}

/// A record gives back what it says: each field of the agent is read from the field of its name.
pub proof fn law_records_give_back_what_they_say(p: PersistedAgentRecord, now_ms: u64)
    ensures
        ({
            let a = kept_agent(p, now_ms);
            &&& a.thread_id == p.thread_id@ && a.status == p.status@
            &&& a.prompt == text::opt_text(p.prompt) && a.error == text::opt_text(p.error)
            &&& a.active_turn_id == text::opt_text(p.active_turn_id)
            &&& a.worktree_path == text::opt_text(p.worktree_path)
            &&& a.branch_name == text::opt_text(p.branch_name)
            &&& a.restart_attempts == p.restart_attempts && a.validation_retries
                == p.validation_retries
            &&& a.throttled == p.throttled && a.retry_at_ms == p.retry_at_ms
            &&& a.result == models::opt_result(p.result) && a.events == models::event_views(
                p.events@,
            )
            &&& a.updated_at == p.updated_at
            &&& p.budget is Some ==> a.budget.prompt_tokens == p.budget->0.prompt_tokens
                && a.budget.output_tokens == p.budget->0.output_tokens && a.budget.cached_tokens
                == p.budget->0.cached_tokens && a.budget.elapsed_ms == p.budget->0.elapsed_ms
                && a.budget.exceeded == p.budget->0.exceeded
            &&& p.budget is None ==> a.budget.prompt_tokens == 0 && a.budget.output_tokens == 0
                && a.budget.cached_tokens == 0 && a.budget.elapsed_ms == 0
            &&& p.checkpoint is Some ==> a.checkpoint.last_successful_turn_id == text::opt_text(
                p.checkpoint->0.last_successful_turn_id,
            ) && a.checkpoint.retry_count == p.checkpoint->0.retry_count
            &&& p.checkpoint is None ==> a.checkpoint.worktree_path == text::opt_text(
                p.worktree_path,
            ) && a.checkpoint.retry_count == 0
            &&& p.role@ == "worker"@ ==> a.role == AgentRole::Worker
            &&& p.role@ == "foreman"@ ==> a.role == AgentRole::Foreman
            &&& p.role@ == "standalone"@ ==> a.role == AgentRole::Standalone
        }),
{
    reveal_strlit("worker");
    reveal_strlit("foreman");
    reveal_strlit("standalone");
    assert("worker"@.len() == 6 && "foreman"@.len() == 7 && "standalone"@.len() == 10);
}

/// The turns that are complete are counted by the events that say so, and the last of them is the
/// one that succeeded last.
pub proof fn law_complete_turns_are_counted(events: Seq<models::EventView>, e: models::EventView)
    ensures
        completed_turns(Seq::<models::EventView>::empty()) == 0,
        last_completed_turn(Seq::<models::EventView>::empty()) is None,
        e.method == "turn/completed"@ ==> completed_turns(events.push(e)) == completed_turns(events)
            + 1 && last_completed_turn(events.push(e)) == protocol::turn_of(e.params),
        e.method != "turn/completed"@ ==> completed_turns(events.push(e)) == completed_turns(events)
            && last_completed_turn(events.push(e)) == last_completed_turn(events),
{
    assert(events.push(e).drop_last() == events);
}

/// A record of a job gives back what it says, on the main branch and without merging where it says
/// nothing of these.
pub proof fn law_job_records_give_back_what_they_say(p: PersistedJobRecord)
    ensures
        ({
            let j = kept_job(p);
            &&& j.status == p.status@
            &&& j.merged_branches == text::texts(p.merged_branches@)
            &&& j.merge_conflicts == text::texts(p.merge_conflicts@)
            &&& p.base_branch is None ==> j.base_branch == "main"@
            &&& p.base_branch is Some ==> j.base_branch == p.base_branch->0@
            &&& p.merge_strategy is None ==> j.merge_strategy == "manual"@
            &&& p.merge_strategy is Some ==> j.merge_strategy == p.merge_strategy->0@
            &&& j.created_at == p.created_at && j.completed_at == p.completed_at && j.updated_at
                == p.updated_at
            &&& j.worker_ids.len() == p.worker_ids@.len()
        }),
{
}

/// A project that comes back is what it was, with its present configuration and files where they
/// can be had and those that were kept where they cannot.
pub proof fn law_projects_come_back(
    p: projects::ProjectView,
    record: PersistedProjectRecord,
    live_config: Option<ProjectConfig>,
    live_runtime: Option<ProjectRuntimeFiles>,
)
    requires
        comes_back(p, record, live_config, live_runtime),
    ensures
        p.path == record.path@,
        p.name == record.name@,
        p.status == record.status@,
        p.completed_worker_turns == record.completed_worker_turns,
        p.created_at == record.created_at && p.updated_at == record.updated_at,
        live_config is Some ==> p.config == live_config->0,
        live_config is None ==> p.config == record.config,
        live_runtime is Some ==> p.runtime == live_runtime->0,
        live_runtime is None ==> p.runtime.foreman_prompt@ == record.runtime.foreman_prompt@
            && p.runtime.worker_prompt@ == record.runtime.worker_prompt@ && p.runtime.runbook@
            == record.runtime.runbook@,
{
}

/// A record keeps the turns that were counted and the time it was made; where it has none, the turns
/// are counted anew and the last change counts as the time.
pub proof fn law_counts_and_times_are_kept(p: PersistedAgentRecord, now_ms: u64)
    ensures
        p.turns_completed > 0 ==> kept_agent(p, now_ms).turns_completed == p.turns_completed,
        p.created_at > 0 ==> kept_agent(p, now_ms).created_at == p.created_at,
        p.created_at == 0 ==> kept_agent(p, now_ms).created_at == p.updated_at,
        p.governor_key is Some ==> kept_agent(p, now_ms).governor_key == Some(p.governor_key->0@),
        p.turns_completed == 0 && models::event_views(p.events@).len() == 0 ==> kept_agent(
            p,
            now_ms,
        ).turns_completed == 0,
{
}

} // verus!

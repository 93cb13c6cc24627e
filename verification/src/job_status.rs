//! What is told of a job: its state, its result and its events.
use vstd::prelude::*;

use crate::agent;
use crate::agent::AgentRecord;
use crate::agent_events::CallbackEventContext;
use crate::agent_status;
use crate::agent_status::{get_agent_result, throttle_status, unknown_result};
use crate::config::BudgetDefaultsConfig;
use crate::constants;
use crate::id_map::IdMap;
use crate::job;
use crate::job::{find_agent, is_job_terminal_status, report_status, JobRecord};
use crate::json;
use crate::json::Json;
use crate::json_build::object1;
use crate::models;
use crate::models::{
    clone_ids, clone_texts, AgentResultResponse, JobEventEnvelope, JobResult, JobState,
    JobWaitResponse, ThrottledWorkerStatus,
};
use crate::monitoring;
use crate::sorting;
use crate::sorting::insert_in_order;
use crate::text;
use crate::text::same_text;
use crate::text_map::TextMap;
use crate::time_order;
use crate::time_order::time_order;
use vstd::multiset::Multiset;

verus! {

/// The values of a key among the entries of one worker.
pub open spec fn entry_values(entries: Seq<(Seq<char>, String)>, k: Seq<char>) -> Multiset<Seq<char>>
    decreases entries.len(),
{
    if entries.len() == 0 {
        Multiset::empty()
    } else if entries.last().0 == k {
        entry_values(entries.drop_last(), k).insert(entries.last().1@)
    } else {
        entry_values(entries.drop_last(), k)
    }
}

/// The values of a key among the labels of all workers.
pub open spec fn label_values(items: Seq<(u128, TextMap<String>)>, k: Seq<char>) -> Multiset<Seq<char>>
    decreases items.len(),
{
    if items.len() == 0 {
        Multiset::empty()
    } else {
        label_values(items.drop_last(), k).add(entry_values(items.last().1.items(), k))
    }
}

/// Whether lists of values hold, for each key, the values that a function gives for it, in
/// order, and no key without a value.
pub open spec fn holds_values(
    r: Map<Seq<char>, Vec<String>>,
    values: spec_fn(Seq<char>) -> Multiset<Seq<char>>,
) -> bool {
    &&& forall|k: Seq<char>| #[trigger] r.dom().contains(k) <==> values(k).len() > 0
    &&& forall|k: Seq<char>| #[trigger]
        r.dom().contains(k) ==> sorting::in_order(text::texts(r[k]@)) && text::texts(
            r[k]@,
        ).to_multiset() == values(k)
}

/// Whether labels are those of all workers put together: for each key the values of all workers,
/// in order.
pub open spec fn is_aggregate(
    r: Map<Seq<char>, Vec<String>>,
    items: Seq<(u128, TextMap<String>)>,
) -> bool {
    holds_values(r, |k: Seq<char>| label_values(items, k))
}

/// Adds the labels of one worker.
fn add_labels(
    aggregate: &mut TextMap<Vec<String>>,
    labels: &TextMap<String>,
    before: Ghost<spec_fn(Seq<char>) -> Multiset<Seq<char>>>,
)
    requires
        holds_values(old(aggregate)@, before@),
    ensures
        holds_values(
            final(aggregate)@,
            |k: Seq<char>| before@(k).add(entry_values(labels.items(), k)),
        ),
{
    let ghost items = labels.items();
    let n: usize = labels.len();
    let mut i: usize = 0;
    proof {
        assert(items.take(0) == Seq::<(Seq<char>, String)>::empty());
        let values = |k: Seq<char>| before@(k).add(entry_values(items.take(0), k));
        assert forall|k: Seq<char>| #[trigger]
            aggregate@.dom().contains(k) <==> values(k).len() > 0 by {
            assert(before@(k).add(Multiset::<Seq<char>>::empty()) =~= before@(k));
        }
        assert forall|k: Seq<char>| #[trigger]
            aggregate@.dom().contains(k) implies sorting::in_order(text::texts(aggregate@[k]@))
            && text::texts(aggregate@[k]@).to_multiset() == values(k) by {
            assert(before@(k).add(Multiset::<Seq<char>>::empty()) =~= before@(k));
        }
        assert(holds_values(aggregate@, values));
    }
    while i < n
        invariant
            i <= n,
            n == labels.items().len(),
            items == labels.items(),
            holds_values(
                aggregate@,
                |k: Seq<char>| before@(k).add(entry_values(items.take(i as int), k)),
            ),
        decreases n - i,
    {
        let ghost old_map = aggregate@;
        let ghost old_values = |k: Seq<char>| before@(k).add(entry_values(items.take(i as int), k));
        let ghost new_values = |k: Seq<char>| before@(k).add(entry_values(items.take(i + 1), k));
        let key = labels.key_at(i);
        let value = labels.value_at(i);
        proof {
            assert(items.take(i + 1).drop_last() == items.take(i as int));
            assert(items.take(i + 1).last() == items[i as int]);
            assert(new_values(key@) =~= old_values(key@).insert(value@));
        }
        let mut list: Vec<String> = match aggregate.get(key.as_str()) {
            Some(list) => clone_texts(list),
            None => Vec::new(),
        };
        proof {
            if !old_map.dom().contains(key@) {
                assert(text::texts(list@) == Seq::<Seq<char>>::empty());
                text::texts(list@).to_multiset_ensures();
                assert(old_values(key@).len() == 0);
                assert(old_values(key@) =~= Multiset::<Seq<char>>::empty());
                assert(text::texts(list@).to_multiset() =~= Multiset::<Seq<char>>::empty());
            }
            assert(text::texts(list@).to_multiset() == old_values(key@));
        }
        insert_in_order(&mut list, value.clone());
        aggregate.insert(key.clone(), list);
        proof {
            assert(new_values(key@).len() > 0) by {
                assert(new_values(key@).len() == old_values(key@).len() + 1);
            }
            assert forall|k: Seq<char>| #[trigger]
                aggregate@.dom().contains(k) <==> new_values(k).len() > 0 by {
                if k != key@ {
                    assert(old_map.dom().contains(k) <==> old_values(k).len() > 0);
                    assert(new_values(k) == old_values(k));
                }
            }
            assert forall|k: Seq<char>| #[trigger]
                aggregate@.dom().contains(k) implies sorting::in_order(
                text::texts(aggregate@[k]@),
            ) && text::texts(aggregate@[k]@).to_multiset() == new_values(k) by {
                if k != key@ {
                    assert(old_map.dom().contains(k));
                    assert(new_values(k) == old_values(k));
                }
            }
            assert(holds_values(aggregate@, new_values));
        }
        i += 1;
    }
    assert(items.take(n as int) == items);
}

/// The labels of all workers put together.
pub fn aggregate_worker_labels(labels: &IdMap<TextMap<String>>) -> (r: TextMap<Vec<String>>)
    ensures
        is_aggregate(r@, labels.items()),
{
    let ghost items = labels.items();
    let mut aggregate: TextMap<Vec<String>> = TextMap::new();
    let n: usize = labels.len();
    let mut i: usize = 0;
    assert(items.take(0) == Seq::<(u128, TextMap<String>)>::empty());
    while i < n
        invariant
            i <= n,
            n == labels.items().len(),
            items == labels.items(),
            holds_values(aggregate@, |k: Seq<char>| label_values(items.take(i as int), k)),
        decreases n - i,
    {
        let ghost before = |k: Seq<char>| label_values(items.take(i as int), k);
        let worker_labels = labels.value_at(i);
        add_labels(&mut aggregate, worker_labels, Ghost(before));
        proof {
            assert(items.take(i + 1).drop_last() == items.take(i as int));
            assert(items.take(i + 1).last() == items[i as int]);
            let added = |k: Seq<char>| before(k).add(entry_values(worker_labels.items(), k));
            let after = |k: Seq<char>| label_values(items.take(i + 1), k);
            assert(holds_values(aggregate@, added));
            assert forall|k: Seq<char>| #[trigger]
                aggregate@.dom().contains(k) <==> after(k).len() > 0 by {
                assert(added(k) == after(k));
            }
            assert forall|k: Seq<char>| #[trigger]
                aggregate@.dom().contains(k) implies sorting::in_order(
                text::texts(aggregate@[k]@),
            ) && text::texts(aggregate@[k]@).to_multiset() == after(k) by {
                assert(added(k) == after(k));
            }
            assert(holds_values(aggregate@, after));
        }
        i += 1;
    }
    assert(items.take(n as int) == items);
    aggregate
}

/// The workers of a job that have to wait, in order.
pub open spec fn waiting_workers(agents: Seq<agent::AgentView>, ids: Seq<u128>) -> Seq<
    (u128, Option<u64>, Option<Seq<char>>),
>
    decreases ids.len(),
{
    if ids.len() == 0 {
        Seq::empty()
    } else {
        let before = waiting_workers(agents, ids.drop_last());
        match job::agent_of(agents, ids.last()) {
            Some(a) => if a.throttled {
                before.push((a.id, a.retry_at_ms, a.throttle_reason))
            } else {
                before
            },
            None => before,
        }
    }
}

/// The workers of a job that have to wait, in order.
fn list_waiting(agents: &Vec<AgentRecord>, ids: &Vec<u128>) -> (r: Vec<ThrottledWorkerStatus>)
    ensures
        agent_status::throttle_views(r@) == waiting_workers(
            monitoring::agent_views(agents@),
            ids@,
        ),
{
    let ghost views = monitoring::agent_views(agents@);
    let mut r: Vec<ThrottledWorkerStatus> = Vec::new();
    let mut i: usize = 0;
    proof {
        assert(ids@.take(0) == Seq::<u128>::empty());
        assert(agent_status::throttle_views(r@) == Seq::<
            (u128, Option<u64>, Option<Seq<char>>),
        >::empty());
    }
    while i < ids.len()
        invariant
            i <= ids@.len(),
            views == monitoring::agent_views(agents@),
            agent_status::throttle_views(r@) == waiting_workers(views, ids@.take(i as int)),
        decreases ids@.len() - i,
    {
        proof {
            assert(ids@.take(i + 1).drop_last() == ids@.take(i as int));
            assert(ids@.take(i + 1).last() == ids@[i as int]);
        }
        if let Some(k) = find_agent(agents, ids[i]) {
            if agents[k].throttled {
                let t = throttle_status(&agents[k]);
                assert(agent_status::throttle_views(r@.push(t)) == agent_status::throttle_views(
                    r@,
                ).push(agent_status::throttle_view(t)));
                r.push(t);
            }
        }
        i += 1;
    }
    assert(ids@.take(i as int) == ids@);
    r
}

/// A copy of who depends on whom.
pub fn clone_graph(graph: &IdMap<Vec<u128>>) -> (r: IdMap<Vec<u128>>)
    ensures
        job::list_values(r@) == job::list_values(graph@),
{
    let mut r: IdMap<Vec<u128>> = IdMap::new();
    let n: usize = graph.len();
    let ghost items = graph.items();
    let mut i: usize = 0;
    assert(items.take(0) == Seq::<(u128, Vec<u128>)>::empty());
    while i < n
        invariant
            i <= n,
            n == items.len(),
            items == graph.items(),
            job::list_values(r@) == job::list_values(
                crate::text_map::map_of(items.take(i as int)),
            ),
        decreases n - i,
    {
        let ghost before = r@;
        let ghost part = crate::text_map::map_of(items.take(i as int));
        proof {
            assert(items.take(i + 1).drop_last() == items.take(i as int));
            assert(items.take(i + 1).last() == items[i as int]);
        }
        let key = graph.key_at(i);
        let value = clone_ids(graph.value_at(i));
        r.insert(key, value);
        proof {
            assert(job::list_values(r@) == job::list_values(before).insert(key, value@));
            assert(job::list_values(part.insert(key, items[i as int].1)) == job::list_values(
                part,
            ).insert(key, value@));
        }
        i += 1;
    }
    assert(items.take(n as int) == items);
    r
}

/// A copy of why workers are held back.
pub fn clone_reasons(reasons: &IdMap<String>) -> (r: IdMap<String>)
    ensures
        r@ == reasons@,
        r.items() == reasons.items(),
{
    let r = reasons.clone();
    assert(r.items() == reasons.items());
    r
}

/// Whether a state is that of a job.
pub open spec fn is_job_state(
    s: JobState,
    j: job::JobView,
    labels: Seq<(u128, TextMap<String>)>,
    agents: Seq<agent::AgentView>,
) -> bool {
    &&& s.id == j.id
    &&& s.project_id == j.project_id
    &&& s.status@ == j.status
    &&& s.worker_ids@ == j.worker_ids
    &&& is_aggregate(s.labels@, labels)
    &&& s.created_at == j.created_at
    &&& s.completed_at == j.completed_at
    &&& s.updated_at == j.updated_at
    &&& agent_status::throttle_views(s.throttled_workers@) == waiting_workers(agents, j.worker_ids)
    &&& job::list_values(s.dependency_graph@) == j.dependency_graph
    &&& job::text_values(s.blocked_reasons@) == j.blocked_reasons
}

/// The state of a job.
pub fn get_job(job: &JobRecord, agents: &Vec<AgentRecord>) -> (r: JobState)
    ensures
        is_job_state(r, job@, job.worker_labels.items(), monitoring::agent_views(agents@)),
{
    JobState {
        id: job.id,
        project_id: job.project_id,
        status: job.status.clone(),
        worker_ids: clone_ids(&job.worker_ids),
        labels: aggregate_worker_labels(&job.worker_labels),
        created_at: job.created_at,
        completed_at: job.completed_at,
        updated_at: job.updated_at,
        throttled_workers: list_waiting(agents, &job.worker_ids),
        dependency_graph: clone_graph(&job.dependency_graph),
        blocked_reasons: clone_reasons(&job.blocked_reasons),
    }
}

/// Whether a response tells what a worker's work came to; of a worker that is gone, that it is.
pub open spec fn is_worker_result(
    r: AgentResultResponse,
    agents: Seq<agent::AgentView>,
    id: u128,
    defaults: BudgetDefaultsConfig,
) -> bool {
    match job::agent_of(agents, id) {
        Some(a) => agent_status::is_result_of(r, a, defaults),
        None => agent_status::is_unknown(
            r,
            id,
            constants::JOB_STATUS_UNKNOWN@,
            "worker disappeared"@,
        ),
    }
}

/// Whether a response counts as that of a worker at work.
pub open spec fn counts_running(r: AgentResultResponse) -> bool {
    r.status@ == constants::AGENT_STATUS_RUNNING@
}

/// Whether a response counts as that of a worker that is done.
pub open spec fn counts_completed(r: AgentResultResponse) -> bool {
    r.completed_at is Some
}

/// Whether a response counts as that of a worker that failed.
pub open spec fn counts_failed(r: AgentResultResponse) -> bool {
    r.status@ == constants::AGENT_STATUS_FAILED@ || r.status@ == constants::AGENT_STATUS_BLOCKED@
        || text::opt_text(r.completion_method) == Some(constants::EVENT_METHOD_TURN_ABORTED@)
}

/// How many responses count.
pub open spec fn count(rs: Seq<AgentResultResponse>, counts: spec_fn(AgentResultResponse) -> bool) -> nat
    decreases rs.len(),
{
    if rs.len() == 0 {
        0
    } else {
        count(rs.drop_last(), counts) + if counts(rs.last()) {
            1nat
        } else {
            0nat
        }
    }
}

/// No more responses count than there are.
pub proof fn lemma_count(rs: Seq<AgentResultResponse>, counts: spec_fn(AgentResultResponse) -> bool)
    ensures
        count(rs, counts) <= rs.len(),
    decreases rs.len(),
{
    if rs.len() > 0 {
        lemma_count(rs.drop_last(), counts);
    }
}

/// Whether a result is what a job came to.
pub open spec fn is_job_result(
    r: JobResult,
    j: job::JobView,
    labels: Seq<(u128, TextMap<String>)>,
    agents: Seq<agent::AgentView>,
    defaults: BudgetDefaultsConfig,
) -> bool {
    &&& r.id == j.id
    &&& r.project_id == j.project_id
    &&& r.workers@.len() == j.worker_ids.len()
    &&& forall|k: int|
        0 <= k < r.workers@.len() ==> is_worker_result(
            #[trigger] r.workers@[k],
            agents,
            j.worker_ids[k],
            defaults,
        )
    &&& r.total_workers == j.worker_ids.len()
    &&& r.worker_count == j.worker_ids.len()
    &&& r.completed_workers == count(r.workers@, |x: AgentResultResponse| counts_completed(x))
    &&& r.running_workers == count(r.workers@, |x: AgentResultResponse| counts_running(x))
    &&& r.failed_workers == count(r.workers@, |x: AgentResultResponse| counts_failed(x))
    &&& r.status@ == job::reported_status(
        r.total_workers as nat,
        r.completed_workers as nat,
        r.running_workers as nat,
        r.failed_workers as nat,
    )
    &&& is_aggregate(r.labels@, labels)
    &&& text::texts(r.merged_branches@) == j.merged_branches
    &&& text::texts(r.merge_conflicts@) == j.merge_conflicts
    &&& job::list_values(r.dependency_graph@) == j.dependency_graph
    &&& job::text_values(r.blocked_reasons@) == j.blocked_reasons
}

fn worker_result(agents: &Vec<AgentRecord>, id: u128, defaults: &BudgetDefaultsConfig) -> (r:
    AgentResultResponse)
    ensures
        is_worker_result(r, monitoring::agent_views(agents@), id, *defaults),
{
    match find_agent(agents, id) {
        Some(k) => get_agent_result(&agents[k], defaults),
        None => unknown_result(id, constants::JOB_STATUS_UNKNOWN, "worker disappeared"),
    }
}

fn has_failed(r: &AgentResultResponse) -> (b: bool)
    ensures
        b == counts_failed(*r),
{
    let aborted = match &r.completion_method {
        Some(m) => same_text(m.as_str(), constants::EVENT_METHOD_TURN_ABORTED),
        None => false,
    };
    aborted || same_text(r.status.as_str(), constants::AGENT_STATUS_FAILED) || same_text(
        r.status.as_str(),
        constants::AGENT_STATUS_BLOCKED,
    )
}

/// What a job came to.
pub fn get_job_result(job: &JobRecord, agents: &Vec<AgentRecord>, defaults: &BudgetDefaultsConfig) -> (r:
    JobResult)
    ensures
        is_job_result(
            r,
            job@,
            job.worker_labels.items(),
            monitoring::agent_views(agents@),
            *defaults,
        ),
{
    let ghost views = monitoring::agent_views(agents@);
    let ghost running_fn = |x: AgentResultResponse| counts_running(x);
    let ghost completed_fn = |x: AgentResultResponse| counts_completed(x);
    let ghost failed_fn = |x: AgentResultResponse| counts_failed(x);
    let total: usize = job.worker_ids.len();
    let mut workers: Vec<AgentResultResponse> = Vec::new();
    let mut completed: usize = 0;
    let mut running: usize = 0;
    let mut failed: usize = 0;
    let mut i: usize = 0;
    while i < total
        invariant
            i <= total,
            total == job.worker_ids@.len(),
            views == monitoring::agent_views(agents@),
            running_fn == |x: AgentResultResponse| counts_running(x),
            completed_fn == |x: AgentResultResponse| counts_completed(x),
            failed_fn == |x: AgentResultResponse| counts_failed(x),
            workers@.len() == i,
            forall|k: int|
                0 <= k < i ==> is_worker_result(
                    #[trigger] workers@[k],
                    views,
                    job.worker_ids@[k],
                    *defaults,
                ),
            completed == count(workers@, completed_fn),
            running == count(workers@, running_fn),
            failed == count(workers@, failed_fn),
        decreases total - i,
    {
        let response = worker_result(agents, job.worker_ids[i], defaults);
        proof {
            lemma_count(workers@, completed_fn);
            lemma_count(workers@, running_fn);
            lemma_count(workers@, failed_fn);
            assert(workers@.push(response).drop_last() == workers@);
        }
        if same_text(response.status.as_str(), constants::AGENT_STATUS_RUNNING) {
            running += 1;
        }
        if response.completed_at.is_some() {
            completed += 1;
        }
        if has_failed(&response) {
            failed += 1;
        }
        workers.push(response);
        i += 1;
    }
    JobResult {
        id: job.id,
        project_id: job.project_id,
        status: report_status(total, completed, running, failed),
        total_workers: total,
        completed_workers: completed,
        running_workers: running,
        failed_workers: failed,
        worker_count: total,
        workers,
        labels: aggregate_worker_labels(&job.worker_labels),
        merged_branches: clone_texts(&job.merged_branches),
        merge_conflicts: clone_texts(&job.merge_conflicts),
        dependency_graph: clone_graph(&job.dependency_graph),
        blocked_reasons: clone_reasons(&job.blocked_reasons),
    }
}

/// Whether an answer is what is told while a job with a result is waited for: the result once the
/// job has ended or the time is up, and nothing before that. Without the workers where those are
/// not asked for.
pub open spec fn is_wait_answer(
    r: Option<JobWaitResponse>,
    result: JobResult,
    timed_out: bool,
    include_workers: bool,
) -> bool {
    let ended = job::is_terminal(result.status@);
    match r {
        None => !ended && !timed_out,
        Some(w) => {
            &&& ended || timed_out
            &&& w.timed_out == !ended
            &&& w.result.workers@ == (if include_workers {
                result.workers@
            } else {
                Seq::empty()
            })
            &&& w.result == (JobResult { workers: w.result.workers, ..result })
        },
    }
}

/// What is told while a job is waited for.
pub fn judge_job_wait(result: JobResult, timed_out: bool, include_workers: bool) -> (r: Option<
    JobWaitResponse,
>)
    ensures
        is_wait_answer(r, result, timed_out, include_workers),
{
    let ended = is_job_terminal_status(result.status.as_str());
    if !ended && !timed_out {
        return None;
    }
    let mut result = result;
    if !include_workers {
        result.workers = Vec::new();
    }
    Some(JobWaitResponse { result, timed_out: !ended })
}

/// Whether an answer tells of a job that is not there.
pub open spec fn is_unknown_job(r: JobWaitResponse, job_id: u128) -> bool {
    &&& r.timed_out
    &&& r.result.id == job_id
    &&& r.result.project_id is None
    &&& r.result.status@ == constants::JOB_STATUS_UNKNOWN@
    &&& r.result.total_workers == 0
    &&& r.result.completed_workers == 0
    &&& r.result.running_workers == 0
    &&& r.result.failed_workers == 0
    &&& r.result.worker_count == 0
    &&& r.result.workers@.len() == 0
    &&& r.result.labels.items().len() == 0
    &&& r.result.merged_branches@.len() == 0
    &&& r.result.merge_conflicts@.len() == 0
    &&& r.result.dependency_graph.items().len() == 0
    &&& r.result.blocked_reasons.items().len() == 0
}

/// What is told of a job that is not there when the time for it is up.
pub fn unknown_job(job_id: u128) -> (r: JobWaitResponse)
    ensures
        is_unknown_job(r, job_id),
{
    JobWaitResponse {
        result: JobResult {
            id: job_id,
            project_id: None,
            status: constants::JOB_STATUS_UNKNOWN.to_owned(),
            total_workers: 0,
            completed_workers: 0,
            running_workers: 0,
            failed_workers: 0,
            worker_count: 0,
            workers: Vec::new(),
            labels: TextMap::new(),
            merged_branches: Vec::new(),
            merge_conflicts: Vec::new(),
            dependency_graph: IdMap::new(),
            blocked_reasons: IdMap::new(),
        },
        timed_out: true,
    }
}

/// An event of a worker.
pub struct WorkerEvent {
    pub agent_id: u128,
    pub event: models::EventView,
}

/// Events of one worker.
pub open spec fn of_worker(id: u128, events: Seq<models::EventView>) -> Seq<WorkerEvent> {
    events.map_values(|e: models::EventView| WorkerEvent { agent_id: id, event: e })
}

/// The events of the workers from a time on, worker by worker.
pub open spec fn worker_events(agents: Seq<agent::AgentView>, ids: Seq<u128>, min_ts: u64) -> Seq<
    WorkerEvent,
>
    decreases ids.len(),
{
    if ids.len() == 0 {
        Seq::empty()
    } else {
        let before = worker_events(agents, ids.drop_last(), min_ts);
        match job::agent_of(agents, ids.last()) {
            Some(a) => before + of_worker(ids.last(), agent_status::since(a.events, min_ts)),
            None => before,
        }
    }
}

/// The event in an envelope.
pub open spec fn enveloped(e: JobEventEnvelope) -> WorkerEvent {
    WorkerEvent {
        agent_id: e.agent_id,
        event: models::EventView { ts: e.ts, method: e.method@, params: e.params@ },
    }
}

/// What is told of an event to those who watch the job of its agent.
pub fn job_event(context: &CallbackEventContext) -> (r: Option<JobEventEnvelope>)
    ensures
        r is Some == context@.job_id is Some,
        r matches Some(e) ==> Some(e.job_id) == context@.job_id && enveloped(e) == (WorkerEvent {
            agent_id: context@.agent_id,
            event: models::EventView {
                ts: context@.ts,
                method: context@.method,
                params: context@.params,
            },
        }),
{
    match context.job_id {
        Some(job_id) => Some(
            JobEventEnvelope {
                job_id,
                agent_id: context.agent_id,
                ts: context.ts,
                method: context.method.clone(),
                params: context.params.clone(),
            },
        ),
        None => None,
    }
}

/// What is told of a job that has ended with a status, after an event of one of its agents.
pub fn job_completed_event(job_id: u128, agent_id: u128, status: String, ts: u64) -> (r:
    JobEventEnvelope)
    ensures
        r.job_id == job_id,
        enveloped(r) == (WorkerEvent {
            agent_id,
            event: models::EventView {
                ts,
                method: "job.completed"@,
                params: json::JsonView::Object(seq![("status"@, json::JsonView::Text(status@))]),
            },
        }),
{
    let params = object1("status", Json::Text(status));
    JobEventEnvelope { job_id, agent_id, ts, method: "job.completed".to_owned(), params }
}

/// The events in envelopes.
pub open spec fn all_enveloped(es: Seq<JobEventEnvelope>) -> Seq<WorkerEvent> {
    es.map_values(|e: JobEventEnvelope| enveloped(e))
}

/// The times of the events.
pub open spec fn event_times(es: Seq<WorkerEvent>) -> Seq<u64> {
    es.map_values(|e: WorkerEvent| e.event.ts)
}

/// Whether envelopes hold events of a job's workers, in the order of their times.
pub open spec fn is_backlog(r: Seq<JobEventEnvelope>, job_id: u128, events: Seq<WorkerEvent>) -> bool {
    exists|order: Seq<usize>| #[trigger]
        time_order::is_time_order(order, event_times(events)) && r.len() == events.len() && forall|
            k: int,
        |
            0 <= k < r.len() ==> (#[trigger] r[k]).job_id == job_id && enveloped(r[k])
                == events[order[k] as int]
}

fn collect_events(
    job_id: u128,
    agents: &Vec<AgentRecord>,
    ids: &Vec<u128>,
    since_ts: Option<u64>,
) -> (r: Vec<JobEventEnvelope>)
    ensures
        all_enveloped(r@) == worker_events(
            monitoring::agent_views(agents@),
            ids@,
            agent_status::from_time(since_ts),
        ),
        forall|k: int| 0 <= k < r@.len() ==> (#[trigger] r@[k]).job_id == job_id,
{
    let ghost views = monitoring::agent_views(agents@);
    let ghost min_ts = agent_status::from_time(since_ts);
    let mut r: Vec<JobEventEnvelope> = Vec::new();
    let mut i: usize = 0;
    proof {
        assert(ids@.take(0) == Seq::<u128>::empty());
        assert(all_enveloped(r@) == Seq::<WorkerEvent>::empty());
    }
    while i < ids.len()
        invariant
            i <= ids@.len(),
            views == monitoring::agent_views(agents@),
            min_ts == agent_status::from_time(since_ts),
            all_enveloped(r@) == worker_events(views, ids@.take(i as int), min_ts),
            forall|k: int| 0 <= k < r@.len() ==> (#[trigger] r@[k]).job_id == job_id,
        decreases ids@.len() - i,
    {
        proof {
            assert(ids@.take(i + 1).drop_last() == ids@.take(i as int));
            assert(ids@.take(i + 1).last() == ids@[i as int]);
        }
        let id = ids[i];
        if let Some(at) = find_agent(agents, id) {
            let events = agent_status::events_since(&agents[at].events, since_ts);
            let ghost before = all_enveloped(r@);
            let ghost more = of_worker(id, models::event_views(events@));
            let mut k: usize = 0;
            assert(before + more.take(0) == before);
            while k < events.len()
                invariant
                    k <= events@.len(),
                    more == of_worker(id, models::event_views(events@)),
                    all_enveloped(r@) == before + more.take(k as int),
                    forall|j: int| 0 <= j < r@.len() ==> (#[trigger] r@[j]).job_id == job_id,
                decreases events@.len() - k,
            {
                let e = &events[k];
                let envelope = JobEventEnvelope {
                    job_id,
                    agent_id: id,
                    ts: e.ts,
                    method: e.method.clone(),
                    params: e.params.clone(),
                };
                proof {
                    assert(all_enveloped(r@.push(envelope)) == all_enveloped(r@).push(
                        enveloped(envelope),
                    ));
                    assert(before + more.take(k + 1) == (before + more.take(k as int)).push(
                        more[k as int],
                    ));
                }
                r.push(envelope);
                k += 1;
            }
            assert(more.take(k as int) == more);
        }
        i += 1;
    }
    assert(ids@.take(i as int) == ids@);
    r
}

/// The events of a job's workers from a time on, in the order of their times.
pub fn get_job_event_backlog(job: &JobRecord, agents: &Vec<AgentRecord>, since_ts: Option<u64>) -> (r:
    Vec<JobEventEnvelope>)
    ensures
        is_backlog(
            r@,
            job.id,
            worker_events(
                monitoring::agent_views(agents@),
                job@.worker_ids,
                agent_status::from_time(since_ts),
            ),
        ),
{
    let all = collect_events(job.id, agents, &job.worker_ids, since_ts);
    let ghost events = all_enveloped(all@);
    let mut times: Vec<u64> = Vec::new();
    let mut i: usize = 0;
    while i < all.len()
        invariant
            i <= all@.len(),
            events == all_enveloped(all@),
            times@.len() == i,
            forall|k: int| 0 <= k < i ==> (#[trigger] times@[k]) == events[k].event.ts,
        decreases all@.len() - i,
    {
        times.push(all[i].ts);
        i += 1;
    }
    assert(times@ == event_times(events));
    let order = time_order(&times);
    let mut r: Vec<JobEventEnvelope> = Vec::new();
    let mut k: usize = 0;
    while k < order.len()
        invariant
            k <= order@.len(),
            events == all_enveloped(all@),
            time_order::is_time_order(order@, event_times(events)),
            r@.len() == k,
            forall|j: int|
                0 <= j < k ==> (#[trigger] r@[j]).job_id == job.id && enveloped(r@[j])
                    == events[order@[j] as int],
        decreases order@.len() - k,
    {
        let at: usize = order[k];
        assert(at < event_times(events).len());
        let e = &all[at];
        r.push(
            JobEventEnvelope {
                job_id: job.id,
                agent_id: e.agent_id,
                ts: e.ts,
                method: e.method.clone(),
                params: e.params.clone(),
            },
        );
        k += 1;
    }
    assert(time_order::is_time_order(order@, event_times(events)));
    r
}

proof fn lemma_count_all(rs: Seq<AgentResultResponse>, counts: spec_fn(AgentResultResponse) -> bool)
    ensures
        count(rs, counts) <= rs.len(),
        count(rs, counts) == rs.len() <==> (forall|k: int|
            0 <= k < rs.len() ==> counts(#[trigger] rs[k])),
        count(rs, counts) == 0 <==> (forall|k: int|
            0 <= k < rs.len() ==> !counts(#[trigger] rs[k])),
    decreases rs.len(),
{
    if rs.len() > 0 {
        let before = rs.drop_last();
        lemma_count_all(before, counts);
        assert(rs[rs.len() - 1] == rs.last());
        if forall|k: int| 0 <= k < before.len() ==> counts(#[trigger] before[k]) {
            assert forall|k: int| 0 <= k < rs.len() && counts(rs.last()) implies counts(
                #[trigger] rs[k],
            ) by {
                if k < before.len() {
                    assert(before[k] == rs[k]);
                }
            }
        } else {
            let k = choose|k: int| 0 <= k < before.len() && !counts(#[trigger] before[k]);
            assert(rs[k] == before[k]);
        }
        if forall|k: int| 0 <= k < before.len() ==> !counts(#[trigger] before[k]) {
            assert forall|k: int| 0 <= k < rs.len() && !counts(rs.last()) implies !counts(
                #[trigger] rs[k],
            ) by {
                if k < before.len() {
                    assert(before[k] == rs[k]);
                }
            }
        } else {
            let k = choose|k: int| 0 <= k < before.len() && counts(#[trigger] before[k]);
            assert(rs[k] == before[k]);
        }
    }
}

/// Whether a response tells of a failure.
pub open spec fn tells_of_failure(r: AgentResultResponse) -> bool {
    r.status@ == "failed"@ || r.status@ == "blocked"@ || (r.completion_method is Some
        && r.completion_method->0@ == "turn/aborted"@)
}

/// The result of a job with workers that are all done and of which none runs: completed exactly
/// where no worker failed, failed exactly where all did, else partial. One with a worker that runs
/// is running. As many workers are told of as the job has, and the numbers are those of the workers.
pub proof fn law_job_result_follows_the_workers(
    r: JobResult,
    j: job::JobView,
    labels: Seq<(u128, TextMap<String>)>,
    agents: Seq<agent::AgentView>,
    defaults: BudgetDefaultsConfig,
)
    requires
        is_job_result(r, j, labels, agents, defaults),
    ensures
        r.workers@.len() == j.worker_ids.len(),
        j.worker_ids.len() == 0 ==> r.status@ == "empty"@,
        (exists|k: int| 0 <= k < r.workers@.len() && (#[trigger] r.workers@[k]).status@ == "running"@)
            ==> r.status@ == "running"@,
        j.worker_ids.len() > 0 && (forall|k: int|
            0 <= k < r.workers@.len() ==> (#[trigger] r.workers@[k]).completed_at is Some
                && r.workers@[k].status@ != "running"@) ==> {
            &&& r.status@ == "completed"@ <==> forall|k: int|
                0 <= k < r.workers@.len() ==> !tells_of_failure(#[trigger] r.workers@[k])
            &&& r.status@ == "failed"@ <==> forall|k: int|
                0 <= k < r.workers@.len() ==> tells_of_failure(#[trigger] r.workers@[k])
            &&& r.status@ == "completed"@ || r.status@ == "failed"@ || r.status@ == "partial"@
        },
        r.failed_workers == 0 <==> forall|k: int|
            0 <= k < r.workers@.len() ==> !tells_of_failure(#[trigger] r.workers@[k]),
        r.completed_workers == r.total_workers <==> forall|k: int|
            0 <= k < r.workers@.len() ==> (#[trigger] r.workers@[k]).completed_at is Some,
        r.running_workers == 0 <==> forall|k: int|
            0 <= k < r.workers@.len() ==> (#[trigger] r.workers@[k]).status@ != "running"@,
        r.total_workers == r.workers@.len(),
{
    let ws = r.workers@;
    let done = |x: AgentResultResponse| counts_completed(x);
    let runs = |x: AgentResultResponse| counts_running(x);
    let bad = |x: AgentResultResponse| counts_failed(x);
    lemma_count_all(ws, done);
    lemma_count_all(ws, runs);
    lemma_count_all(ws, bad);
    assert forall|k: int| 0 <= k < ws.len() implies bad(#[trigger] ws[k]) == tells_of_failure(
        ws[k],
    ) by {}
    assert forall|k: int| 0 <= k < ws.len() implies done(#[trigger] ws[k]) == (
    ws[k].completed_at is Some) by {}
    assert forall|k: int| 0 <= k < ws.len() implies runs(#[trigger] ws[k]) == (ws[k].status@
        == "running"@) by {}
    job::law_report_follows_the_workers(
        r.total_workers as nat,
        r.completed_workers as nat,
        r.running_workers as nat,
        r.failed_workers as nat,
    );
    reveal_strlit("completed");
    reveal_strlit("failed");
    reveal_strlit("partial");
    reveal_strlit("running");
    assert("completed"@.len() == 9 && "failed"@.len() == 6);
    assert("partial"@.len() == 7 && "partial"@[0] == 'p');
    assert("running"@.len() == 7 && "running"@[0] == 'r');
}

/// While a job is waited for, its result is told once it has ended or the time is up, and not
/// before; that the time was up is told exactly where the job had not ended.
pub proof fn law_wait_ends_with_the_job_or_the_time(
    r: Option<JobWaitResponse>,
    result: JobResult,
    timed_out: bool,
    include_workers: bool,
)
    requires
        is_wait_answer(r, result, timed_out, include_workers),
    ensures
        ({
            let ended = result.status@ == "completed"@ || result.status@ == "failed"@
                || result.status@ == "partial"@;
            &&& r is Some <==> ended || timed_out
            &&& r matches Some(w) ==> {
                &&& w.timed_out == !ended
                &&& w.result.status == result.status
                &&& w.result.id == result.id
                &&& include_workers ==> w.result.workers@ == result.workers@
                &&& !include_workers ==> w.result.workers@.len() == 0
                &&& w.result.total_workers == result.total_workers
            }
        }),
{
}

/// Of a job that is not known nothing is told but that, and the wait counts as over its time.
pub proof fn law_unknown_jobs_are_told_as_such(r: JobWaitResponse, job_id: u128)
    requires
        is_unknown_job(r, job_id),
    ensures
        r.timed_out,
        r.result.id == job_id,
        r.result.status@ == "unknown"@,
        r.result.total_workers == 0 && r.result.workers@.len() == 0,
{
}

/// The result and the state of a job are its own, with its branches, its dependencies and its
/// workers in order.
pub proof fn law_results_and_states_are_of_the_job(
    r: JobResult,
    s: JobState,
    j: job::JobView,
    labels: Seq<(u128, TextMap<String>)>,
    agents: Seq<agent::AgentView>,
    defaults: BudgetDefaultsConfig,
    k: int,
)
    requires
        is_job_result(r, j, labels, agents, defaults),
        is_job_state(s, j, labels, agents),
        0 <= k < j.worker_ids.len(),
    ensures
        r.id == j.id && r.project_id == j.project_id,
        text::texts(r.merged_branches@) == j.merged_branches,
        text::texts(r.merge_conflicts@) == j.merge_conflicts,
        s.id == j.id && s.status@ == j.status && s.worker_ids@ == j.worker_ids,
        s.completed_at == j.completed_at && s.created_at == j.created_at,
        job::agent_of(agents, j.worker_ids[k]) is None ==> r.workers@[k].status@ == "unknown"@
            && r.workers@[k].agent_id == j.worker_ids[k],
        job::agent_of(agents, j.worker_ids[k]) is Some ==> r.workers@[k].agent_id
            == job::agent_of(agents, j.worker_ids[k])->0.id,
{
    assert(is_worker_result(r.workers@[k], agents, j.worker_ids[k], defaults));
}

/// The workers that wait are those of the job that are held back, in order.
pub proof fn law_held_workers_of_a_job(
    agents: Seq<agent::AgentView>,
    ids: Seq<u128>,
    id: u128,
)
    ensures
        waiting_workers(agents, Seq::<u128>::empty()).len() == 0,
        job::agent_of(agents, id) is Some && job::agent_of(agents, id)->0.throttled
            ==> waiting_workers(agents, ids.push(id)) == waiting_workers(agents, ids).push(
            (
                job::agent_of(agents, id)->0.id,
                job::agent_of(agents, id)->0.retry_at_ms,
                job::agent_of(agents, id)->0.throttle_reason,
            ),
        ),
        job::agent_of(agents, id) is None || !job::agent_of(agents, id)->0.throttled
            ==> waiting_workers(agents, ids.push(id)) == waiting_workers(agents, ids),
{
    assert(ids.push(id).drop_last() == ids);
}

/// What is told of a job afterwards is every event of its workers from the time on, of the job,
/// with nothing older behind.
pub proof fn law_backlog_is_in_order(
    r: Seq<JobEventEnvelope>,
    job_id: u128,
    events: Seq<WorkerEvent>,
    i: int,
    k: int,
)
    requires
        is_backlog(r, job_id, events),
        0 <= i < k < r.len(),
    ensures
        r.len() == events.len(),
        r[i].job_id == job_id && r[k].job_id == job_id,
        r[i].ts <= r[k].ts,
        events.contains(enveloped(r[i])),
{
    let order = choose|order: Seq<usize>| #[trigger]
        time_order::is_time_order(order, event_times(events)) && r.len() == events.len() && forall|
            n: int,
        |
            0 <= n < r.len() ==> (#[trigger] r[n]).job_id == job_id && enveloped(r[n])
                == events[order[n] as int];
    time_order::law_older_comes_first(order, event_times(events), i, k);
    assert(enveloped(r[i]) == events[order[i] as int]);
    assert(enveloped(r[k]) == events[order[k] as int]);
    assert(event_times(events)[order[i] as int] == r[i].ts);
    assert(event_times(events)[order[k] as int] == r[k].ts);
}

/// The events of a job are those of its workers that are no older than the time, worker by worker.
pub proof fn law_events_of_a_job_are_those_of_its_workers(
    agents: Seq<agent::AgentView>,
    ids: Seq<u128>,
    id: u128,
    min_ts: u64,
)
    ensures
        worker_events(agents, Seq::<u128>::empty(), min_ts).len() == 0,
        job::agent_of(agents, id) is None ==> worker_events(agents, ids.push(id), min_ts)
            == worker_events(agents, ids, min_ts),
        job::agent_of(agents, id) is Some ==> {
            let own = job::agent_of(agents, id)->0.events.filter(
                |e: models::EventView| e.ts >= min_ts,
            );
            worker_events(agents, ids.push(id), min_ts) == worker_events(agents, ids, min_ts)
                + own.map_values(|e: models::EventView| WorkerEvent { agent_id: id, event: e })
        },
{
    assert(ids.push(id).drop_last() == ids);
    if job::agent_of(agents, id) is Some {
        agent_status::law_events_from_a_time_on(job::agent_of(agents, id)->0.events, min_ts);
    }
}

} // verus!

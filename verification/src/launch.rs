//! Which workers of a job may start, and which are held back for good.
use vstd::prelude::*;

use crate::agent;
use crate::agent::AgentRecord;
use crate::constants;
use crate::id_map::IdMap;
use crate::ids;
use crate::ids::id_text;
use crate::job;
use crate::job::{find_agent, is_worker_failure, is_worker_success, JobRecord};
use crate::job_status::clone_reasons;
use crate::models;
use crate::models::AgentResult;
use crate::monitoring;
use crate::text;
use crate::text::trims_to_empty;

verus! {

/// How far the workers are on which a worker depends.
#[derive(Debug, Clone, Copy, PartialEq, Eq, Structural)]
pub enum DependencyStatus {
    /// Each of them succeeded.
    Satisfied,
    /// At least one is not done, and none failed.
    Pending,
    /// This one, the first of them in order, failed.
    Failed(u128),
}

/// Whether a worker failed, as far as its record says.
pub open spec fn known_failed(agents: Seq<agent::AgentView>, id: u128) -> bool {
    job::agent_of(agents, id) matches Some(a) && (a.result matches Some(r) && job::worker_failed(r))
}

/// Whether a worker succeeded, as far as its record says.
pub open spec fn known_succeeded(agents: Seq<agent::AgentView>, id: u128) -> bool {
    job::agent_of(agents, id) matches Some(a) && (a.result matches Some(r)
        && job::worker_succeeded(r))
}

/// The first of the workers that failed.
pub open spec fn first_failed(agents: Seq<agent::AgentView>, ids: Seq<u128>) -> Option<u128>
    decreases ids.len(),
{
    if ids.len() == 0 {
        None
    } else {
        match first_failed(agents, ids.drop_last()) {
            Some(id) => Some(id),
            None => if known_failed(agents, ids.last()) {
                Some(ids.last())
            } else {
                None
            },
        }
    }
}

/// How far the workers are on which a worker depends.
pub open spec fn dependency_status(agents: Seq<agent::AgentView>, ids: Seq<u128>) -> DependencyStatus {
    match first_failed(agents, ids) {
        Some(id) => DependencyStatus::Failed(id),
        None => if forall|i: int| 0 <= i < ids.len() ==> known_succeeded(agents, #[trigger] ids[i]) {
            DependencyStatus::Satisfied
        } else {
            DependencyStatus::Pending
        },
    }
}

/// The first failure in a list is a failure in it; there is none where nothing failed.
pub proof fn lemma_first_failed(agents: Seq<agent::AgentView>, ids: Seq<u128>)
    ensures
        first_failed(agents, ids) matches Some(id) ==> ids.contains(id) && known_failed(agents, id),
        first_failed(agents, ids) is None <==> forall|i: int|
            0 <= i < ids.len() ==> !known_failed(agents, #[trigger] ids[i]),
    decreases ids.len(),
{
    if ids.len() > 0 {
        lemma_first_failed(agents, ids.drop_last());
        assert(ids.last() == ids[ids.len() - 1]);
        assert forall|i: int| 0 <= i < ids.drop_last().len() implies ids.drop_last()[i]
            == #[trigger] ids[i] by {}
        if first_failed(agents, ids.drop_last()) is Some {
            let id = first_failed(agents, ids.drop_last())->0;
            let i = choose|i: int| 0 <= i < ids.drop_last().len() && ids.drop_last()[i] == id;
            assert(ids[i] == id);
        }
    }
}

/// How far the workers are on which a worker depends.
pub fn dependency_status_for_worker(agents: &Vec<AgentRecord>, dependencies: &Vec<u128>) -> (r:
    DependencyStatus)
    ensures
        r == dependency_status(monitoring::agent_views(agents@), dependencies@),
{
    let ghost views = monitoring::agent_views(agents@);
    let ghost ids = dependencies@;
    let mut all_satisfied = true;
    let mut i: usize = 0;
    while i < dependencies.len()
        invariant
            i <= dependencies@.len(),
            ids == dependencies@,
            views == monitoring::agent_views(agents@),
            first_failed(views, ids.take(i as int)) is None,
            all_satisfied == (forall|k: int|
                0 <= k < i ==> known_succeeded(views, #[trigger] ids[k])),
        decreases dependencies@.len() - i,
    {
        proof {
            assert(ids.take(i + 1).drop_last() == ids.take(i as int));
            assert(ids.take(i + 1).last() == ids[i as int]);
        }
        let id = dependencies[i];
        match find_agent(agents, id) {
            Some(k) => {
                match &agents[k].result {
                    Some(result) => {
                        if is_worker_failure(result) {
                            proof {
                                lemma_first_failed_prefix(views, ids, i + 1);
                            }
                            return DependencyStatus::Failed(id);
                        }
                        if !is_worker_success(result) {
                            assert(!known_succeeded(views, ids[i as int]));
                            all_satisfied = false;
                        }
                    },
                    None => {
                        assert(!known_succeeded(views, ids[i as int]));
                        all_satisfied = false;
                    },
                }
            },
            None => {
                assert(!known_succeeded(views, ids[i as int]));
                all_satisfied = false;
            },
        }
        i += 1;
    }
    assert(ids.take(i as int) == ids);
    if all_satisfied {
        DependencyStatus::Satisfied
    } else {
        DependencyStatus::Pending
    }
}

/// The first failure of a prefix is the first failure of the whole.
proof fn lemma_first_failed_prefix(agents: Seq<agent::AgentView>, ids: Seq<u128>, n: int)
    requires
        0 <= n <= ids.len(),
        first_failed(agents, ids.take(n)) is Some,
    ensures
        first_failed(agents, ids) == first_failed(agents, ids.take(n)),
    decreases ids.len(),
{
    if n < ids.len() {
        assert(ids.drop_last().take(n) == ids.take(n));
        lemma_first_failed_prefix(agents, ids.drop_last(), n);
    } else {
        assert(ids.take(n) == ids);
    }
}

/// Why a worker is held back for good.
pub open spec fn blocked_reason(names: Map<u128, Seq<char>>, failed: u128) -> Seq<char> {
    "blocked: dependency '"@ + (if names.dom().contains(failed) {
        names[failed]
    } else {
        ids::uuid_text(failed)
    }) + "' failed"@
}

/// Whether a worker has neither started nor come to anything.
pub open spec fn untouched(a: agent::AgentView) -> bool {
    a.active_turn_id is None && a.result is None
}

/// A worker that is held back for good, where it has not started.
pub open spec fn after_blocking(a: agent::AgentView, reason: Seq<char>, ts: u64) -> agent::AgentView {
    if untouched(a) {
        agent::AgentView {
            status: constants::AGENT_STATUS_BLOCKED@,
            error: Some(reason),
            result: Some(
                models::ResultView {
                    agent_id: a.id,
                    status: constants::AGENT_STATUS_BLOCKED@,
                    completion_method: Some("dependency_blocked"@),
                    turn_id: None,
                    final_text: None,
                    summary: Some(reason),
                    references: None,
                    completed_at: Some(ts),
                    event_id: None,
                    error: None,
                },
            ),
            updated_at: ts,
            ..a
        }
    } else {
        a
    }
}

/// Holds a worker back for good, where it has not started.
fn block_worker(agent: &mut AgentRecord, reason: String, ts: u64)
    ensures
        final(agent)@ == after_blocking(old(agent)@, reason@, ts),
{
    if agent.active_turn_id.is_none() && agent.result.is_none() {
        agent.status = constants::AGENT_STATUS_BLOCKED.to_owned();
        agent.error = Some(reason.clone());
        agent.result = Some(
            AgentResult {
                agent_id: agent.id,
                status: constants::AGENT_STATUS_BLOCKED.to_owned(),
                completion_method: Some("dependency_blocked".to_owned()),
                turn_id: None,
                final_text: None,
                summary: Some(reason),
                references: None,
                completed_at: Some(ts),
                event_id: None,
                error: None,
            },
        );
        agent.updated_at = ts;
    }
}

/// Whether a worker is ready to start.
pub open spec fn is_ready(a: agent::AgentView) -> bool {
    untouched(a) && (a.prompt matches Some(p) && !text::is_blank(p))
}

/// How far a look at the workers of a job has come.
pub struct LaunchView {
    pub agents: Seq<agent::AgentView>,
    pub blocked: Map<u128, Seq<char>>,
    pub starts: Seq<(u128, Seq<char>)>,
}

/// The workers on which a worker depends.
pub open spec fn needs(graph: Map<u128, Seq<u128>>, id: u128) -> Seq<u128> {
    if graph.dom().contains(id) {
        graph[id]
    } else {
        Seq::empty()
    }
}

/// The look at one worker: it is held back for good where one that it needs failed, and started
/// where each of those succeeded and it is ready.
pub open spec fn look_at(l: LaunchView, j: job::JobView, id: u128, ts: u64) -> LaunchView {
    match dependency_status(l.agents, needs(j.dependency_graph, id)) {
        DependencyStatus::Failed(failed) => {
            let reason = blocked_reason(j.worker_names, failed);
            LaunchView {
                agents: match job::position_of(job::agent_ids(l.agents), id) {
                    Some(i) => l.agents.update(i, after_blocking(l.agents[i], reason, ts)),
                    None => l.agents,
                },
                blocked: l.blocked.insert(id, reason),
                starts: l.starts,
            }
        },
        DependencyStatus::Satisfied => LaunchView {
            agents: l.agents,
            blocked: l.blocked.remove(id),
            starts: match job::agent_of(l.agents, id) {
                Some(a) => if is_ready(a) {
                    l.starts.push((id, a.prompt->0))
                } else {
                    l.starts
                },
                None => l.starts,
            },
        },
        DependencyStatus::Pending => l,
    }
}

/// The look at the workers, one after the other.
pub open spec fn look_at_all(
    agents: Seq<agent::AgentView>,
    j: job::JobView,
    ids: Seq<u128>,
    ts: u64,
) -> LaunchView
    decreases ids.len(),
{
    if ids.len() == 0 {
        LaunchView { agents, blocked: j.blocked_reasons, starts: Seq::empty() }
    } else {
        look_at(look_at_all(agents, j, ids.drop_last(), ts), j, ids.last(), ts)
    }
}

/// The look at the workers leaves the agents who they are.
pub proof fn lemma_same_agents(
    agents: Seq<agent::AgentView>,
    j: job::JobView,
    ids: Seq<u128>,
    ts: u64,
)
    ensures
        job::agent_ids(look_at_all(agents, j, ids, ts).agents) == job::agent_ids(agents),
    decreases ids.len(),
{
    if ids.len() > 0 {
        lemma_same_agents(agents, j, ids.drop_last(), ts);
        let l = look_at_all(agents, j, ids.drop_last(), ts);
        let id = ids.last();
        job::lemma_position_found(job::agent_ids(l.agents), id);
        assert(job::agent_ids(look_at(l, j, id, ts).agents) == job::agent_ids(l.agents));
    }
}

/// A job after the look at its workers.
pub open spec fn after_launch(j: job::JobView, l: LaunchView, ts: u64) -> job::JobView {
    if l.starts.len() > 0 || (exists|k: u128| #[trigger] l.blocked.dom().contains(k)) {
        job::JobView { blocked_reasons: l.blocked, updated_at: ts, ..j }
    } else {
        j
    }
}

/// A worker that starts, and with what.
#[derive(Debug, Clone)]
pub struct StartOrder {
    pub worker_id: u128,
    pub prompt: String,
}

/// The workers that start.
pub open spec fn start_views(starts: Seq<StartOrder>) -> Seq<(u128, Seq<char>)> {
    starts.map_values(|s: StartOrder| (s.worker_id, s.prompt@))
}

/// Why a worker is held back for good.
fn write_reason(names: &IdMap<String>, failed: u128) -> (r: String)
    ensures
        r@ == blocked_reason(job::text_values(names@), failed),
{
    let mut reason = "blocked: dependency '".to_owned();
    match names.get(failed) {
        Some(name) => {
            reason.append(name.as_str());
        },
        None => {
            let id = id_text(failed);
            reason.append(id.as_str());
        },
    }
    reason.append("' failed");
    reason
}

/// Looks at one worker.
fn look_at_worker(
    agents: &mut Vec<AgentRecord>,
    blocked: &mut IdMap<String>,
    starts: &mut Vec<StartOrder>,
    job: &JobRecord,
    id: u128,
    ts: u64,
)
    ensures
        ({
            let l = look_at(
                LaunchView {
                    agents: monitoring::agent_views(old(agents)@),
                    blocked: job::text_values(old(blocked)@),
                    starts: start_views(old(starts)@),
                },
                job@,
                id,
                ts,
            );
            &&& monitoring::agent_views(final(agents)@) == l.agents
            &&& job::text_values(final(blocked)@) == l.blocked
            &&& start_views(final(starts)@) == l.starts
        }),
{
    let ghost views = monitoring::agent_views(agents@);
    let status = match job.dependency_graph.get(id) {
        Some(dependencies) => {
            assert(needs(job@.dependency_graph, id) == dependencies@);
            dependency_status_for_worker(agents, dependencies)
        },
        None => {
            assert(needs(job@.dependency_graph, id) == Seq::<u128>::empty());
            let none: Vec<u128> = Vec::new();
            dependency_status_for_worker(agents, &none)
        },
    };
    match status {
        DependencyStatus::Failed(failed) => {
            let reason = write_reason(&job.worker_names, failed);
            let ghost before = blocked@;
            blocked.insert(id, reason.clone());
            assert(job::text_values(blocked@) == job::text_values(before).insert(id, reason@));
            if let Some(k) = find_agent(agents, id) {
                block_worker(&mut agents[k], reason, ts);
                assert(monitoring::agent_views(agents@) == views.update(
                    k as int,
                    agents@[k as int]@,
                ));
            }
        },
        DependencyStatus::Satisfied => {
            let ghost before = blocked@;
            blocked.remove(id);
            assert(job::text_values(blocked@) == job::text_values(before).remove(id));
            if let Some(k) = find_agent(agents, id) {
                let agent = &agents[k];
                if agent.active_turn_id.is_none() && agent.result.is_none() {
                    if let Some(prompt) = &agent.prompt {
                        if !trims_to_empty(prompt.as_str()) {
                            let ghost started = starts@;
                            let order = StartOrder { worker_id: id, prompt: prompt.clone() };
                            starts.push(order);
                            assert(start_views(starts@) == start_views(started).push(
                                (id, prompt@),
                            ));
                        }
                    }
                }
            }
        },
        DependencyStatus::Pending => {},
    }
}

/// Looks at the workers of a job: holds back for good those that need one that failed, and says
/// which start.
pub fn launch_runnable_workers(job: &mut JobRecord, agents: &mut Vec<AgentRecord>, ts: u64) -> (r:
    Vec<StartOrder>)
    ensures
        ({
            let l = look_at_all(
                monitoring::agent_views(old(agents)@),
                old(job)@,
                old(job)@.worker_ids,
                ts,
            );
            &&& monitoring::agent_views(final(agents)@) == l.agents
            &&& start_views(r@) == l.starts
            &&& final(job)@ == after_launch(old(job)@, l, ts)
        }),
{
    let ghost first = monitoring::agent_views(agents@);
    let ghost j = job@;
    let ghost ids = job.worker_ids@;
    let mut blocked = clone_reasons(&job.blocked_reasons);
    let mut starts: Vec<StartOrder> = Vec::new();
    let mut i: usize = 0;
    proof {
        assert(ids.take(0) == Seq::<u128>::empty());
        assert(start_views(starts@) == Seq::<(u128, Seq<char>)>::empty());
    }
    while i < job.worker_ids.len()
        invariant
            i <= ids.len(),
            j == job@,
            ids == job.worker_ids@,
            ({
                let l = look_at_all(first, j, ids.take(i as int), ts);
                &&& monitoring::agent_views(agents@) == l.agents
                &&& job::text_values(blocked@) == l.blocked
                &&& start_views(starts@) == l.starts
            }),
        decreases ids.len() - i,
    {
        proof {
            assert(ids.take(i + 1).drop_last() == ids.take(i as int));
            assert(ids.take(i + 1).last() == ids[i as int]);
        }
        let id = job.worker_ids[i];
        look_at_worker(agents, &mut blocked, &mut starts, job, id, ts);
        i += 1;
    }
    assert(ids.take(i as int) == ids);
    let any_blocked = any_entry(&blocked);
    if starts.len() > 0 || any_blocked {
        job.blocked_reasons = blocked;
        job.updated_at = ts;
    }
    starts
}

/// Whether a map has an entry.
fn any_entry(m: &IdMap<String>) -> (r: bool)
    ensures
        r == (exists|k: u128| #[trigger] job::text_values(m@).dom().contains(k)),
{
    let n: usize = m.len();
    proof {
        assert(job::text_values(m@).dom() == m@.dom());
        if n > 0 {
            assert(job::text_values(m@).dom().contains(m.items()[0].0));
        }
    }
    n > 0
}

/// A worker that has not started does not start once one that it needs failed: it gets a result
/// that counts as a failure, so that those that need it in turn are held back as well.
pub proof fn law_failure_blocks_what_depends_on_it(
    l: LaunchView,
    j: job::JobView,
    id: u128,
    failed: u128,
    ts: u64,
)
    requires
        needs(j.dependency_graph, id).contains(failed),
        known_failed(l.agents, failed),
        job::agent_of(l.agents, id) matches Some(a) && untouched(a),
    ensures
        look_at(l, j, id, ts).starts == l.starts,
        look_at(l, j, id, ts).blocked.dom().contains(id),
        known_failed(look_at(l, j, id, ts).agents, id),
{
    let list = needs(j.dependency_graph, id);
    lemma_first_failed(l.agents, list);
    let at = choose|i: int| 0 <= i < list.len() && list[i] == failed;
    assert(known_failed(l.agents, list[at]));
    assert(first_failed(l.agents, list) is Some);
    let k = job::position_of(job::agent_ids(l.agents), id)->0;
    job::lemma_position_found(job::agent_ids(l.agents), id);
    let after = look_at(l, j, id, ts).agents;
    assert(job::agent_ids(after) == job::agent_ids(l.agents));
    assert(after[k].result is Some);
    assert(job::worker_failed(after[k].result->0));
}

/// A worker starts only where each worker that it needs has succeeded.
pub proof fn law_start_needs_success(l: LaunchView, j: job::JobView, id: u128, ts: u64)
    requires
        look_at(l, j, id, ts).starts != l.starts,
    ensures
        forall|i: int|
            0 <= i < needs(j.dependency_graph, id).len() ==> known_succeeded(
                l.agents,
                #[trigger] needs(j.dependency_graph, id)[i],
            ),
        look_at(l, j, id, ts).starts.len() == l.starts.len() + 1,
        look_at(l, j, id, ts).starts.last().0 == id,
{
}

/// A worker depends on the ends of others: it may start where each of them succeeded, it is blocked
/// where one of them failed, and it waits where none failed and not all are through.
pub proof fn law_dependencies_decide_on_the_start(agents: Seq<agent::AgentView>, ids: Seq<u128>)
    ensures
        ids.len() == 0 ==> dependency_status(agents, ids) == DependencyStatus::Satisfied,
        dependency_status(agents, ids) is Failed <==> exists|i: int|
            0 <= i < ids.len() && known_failed(agents, #[trigger] ids[i]),
        dependency_status(agents, ids) matches DependencyStatus::Failed(id) ==> ids.contains(id)
            && known_failed(agents, id),
        (forall|i: int|
            0 <= i < ids.len() ==> known_succeeded(agents, #[trigger] ids[i]) && !known_failed(
                agents,
                ids[i],
            )) ==> dependency_status(agents, ids) == DependencyStatus::Satisfied,
        (exists|i: int|
            0 <= i < ids.len() && !known_succeeded(agents, #[trigger] ids[i]))
            ==> dependency_status(agents, ids) != DependencyStatus::Satisfied,
{
    lemma_first_failed(agents, ids);
}

/// A dependency has failed or succeeded by its result alone: one that was aborted, failed or was
/// blocked has failed, one that is complete and did not fail has succeeded, never both.
pub proof fn law_ends_of_dependencies_exclude_each_other(agents: Seq<agent::AgentView>, id: u128)
    ensures
        !(known_failed(agents, id) && known_succeeded(agents, id)),
        job::agent_of(agents, id) is None ==> !known_failed(agents, id) && !known_succeeded(
            agents,
            id,
        ),
        job::agent_of(agents, id) is Some && job::agent_of(agents, id)->0.result is None
            ==> !known_failed(agents, id) && !known_succeeded(agents, id),
        job::agent_of(agents, id) is Some && job::agent_of(agents, id)->0.result is Some
            && job::agent_of(agents, id)->0.result->0.status == "failed"@ ==> known_failed(
            agents,
            id,
        ),
        job::agent_of(agents, id) is Some && job::agent_of(agents, id)->0.result is Some
            && job::agent_of(agents, id)->0.result->0.status == "completed"@ && job::agent_of(
            agents,
            id,
        )->0.result->0.completion_method == Some("turn/completed"@) && job::agent_of(
            agents,
            id,
        )->0.result->0.completed_at is Some ==> known_succeeded(agents, id),
{
    reveal_strlit("completed");
    reveal_strlit("turn/completed");
    reveal_strlit("turn/aborted");
    reveal_strlit("aborted");
    reveal_strlit("failed");
    reveal_strlit("blocked");
    assert("completed"@.len() == 9 && "aborted"@.len() == 7 && "failed"@.len() == 6
        && "blocked"@.len() == 7);
    assert("turn/completed"@.len() == 14 && "turn/aborted"@.len() == 12);
}

/// A blocked worker is done without a turn: its status and its result say that it is blocked and by
/// what. One that has a turn or a result already is left alone.
pub proof fn law_blocked_workers_say_so(a: agent::AgentView, reason: Seq<char>, ts: u64)
    ensures
        a.active_turn_id is Some || a.result is Some ==> after_blocking(a, reason, ts) == a,
        a.active_turn_id is None && a.result is None ==> {
            let b = after_blocking(a, reason, ts);
            &&& b.status == "blocked"@
            &&& b.error == Some(reason)
            &&& b.result is Some && b.result->0.status == "blocked"@ && b.result->0.agent_id == a.id
            &&& b.result->0.completed_at == Some(ts)
            &&& b.result->0.summary == Some(reason)
            &&& b.result->0.completion_method == Some("dependency_blocked"@)
            &&& b.prompt == a.prompt && b.active_turn_id is None && b.id == a.id
        },
        a.active_turn_id is None && a.result is None ==> (is_ready(a) <==> a.prompt is Some
            && !text::is_blank(a.prompt->0)),
        is_ready(a) ==> a.active_turn_id is None && a.result is None,
{
}

/// What blocks a worker is told by its name where it has one, else by its identifier.
pub proof fn law_blocking_workers_are_named(names: Map<u128, Seq<char>>, failed: u128)
    ensures
        names.dom().contains(failed) ==> text::has_text(blocked_reason(names, failed), names[failed]),
        !names.dom().contains(failed) ==> text::has_text(
            blocked_reason(names, failed),
            ids::uuid_text(failed),
        ),
        text::begins(blocked_reason(names, failed), "blocked: dependency '"@),
        text::ends(blocked_reason(names, failed), "' failed"@),
{
    let head = "blocked: dependency '"@;
    let tail = "' failed"@;
    let name = if names.dom().contains(failed) {
        names[failed]
    } else {
        ids::uuid_text(failed)
    };
    let t = blocked_reason(names, failed);
    assert(t.subrange(0, head.len() as int) == head);
    assert(text::occurs_at(t, head, 0));
    assert(t.subrange(head.len() as int, (head.len() + name.len()) as int) == name);
    assert(text::occurs_at(t, name, head.len() as int));
    let n = t.len() - tail.len();
    assert(t.subrange(n as int, t.len() as int) == tail);
    assert(text::occurs_at(t, tail, n as int));
}

/// A look at one worker starts no other: what starts with it is the worker itself, with its own
/// prompt, where it is ready and all it depends on succeeded; and a worker that may start is
/// blocked no more.
pub proof fn law_ready_workers_start_with_their_prompt(
    l: LaunchView,
    j: job::JobView,
    id: u128,
    ts: u64,
)
    ensures
        ({
            let after = look_at(l, j, id, ts);
            let status = dependency_status(l.agents, needs(j.dependency_graph, id));
            &&& status == DependencyStatus::Satisfied && job::agent_of(l.agents, id) is Some
                && is_ready(job::agent_of(l.agents, id)->0) ==> after.starts == l.starts.push(
                (id, job::agent_of(l.agents, id)->0.prompt->0),
            )
            &&& status == DependencyStatus::Satisfied ==> !after.blocked.dom().contains(id)
                && after.agents == l.agents
            &&& status == DependencyStatus::Pending ==> after == l
            &&& status is Failed ==> after.blocked.dom().contains(id) && after.starts == l.starts
            &&& forall|k: u128|
                k != id ==> (#[trigger] after.blocked.dom().contains(k)
                    <==> l.blocked.dom().contains(k))
            &&& !j.dependency_graph.dom().contains(id) ==> status == DependencyStatus::Satisfied
        }),
{
    lemma_first_failed(l.agents, needs(j.dependency_graph, id));
}

/// A look at the workers leaves the job alone unless a worker starts or is blocked; then the job
/// knows which are blocked, and nothing else of it changes.
pub proof fn law_jobs_know_what_is_blocked(j: job::JobView, l: LaunchView, ts: u64, id: u128)
    ensures
        l.starts.len() == 0 && (forall|k: u128| !(#[trigger] l.blocked.dom().contains(k)))
            ==> after_launch(j, l, ts) == j,
        l.blocked.dom().contains(id) ==> after_launch(j, l, ts).blocked_reasons == l.blocked
            && after_launch(j, l, ts).updated_at == ts,
        l.starts.len() > 0 ==> after_launch(j, l, ts).blocked_reasons == l.blocked,
        after_launch(j, l, ts).status == j.status,
        after_launch(j, l, ts).worker_ids == j.worker_ids,
        after_launch(j, l, ts).dependency_graph == j.dependency_graph,
{
}

} // verus!

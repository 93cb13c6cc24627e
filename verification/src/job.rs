//! Jobs: several workers for one project, and what their work comes to.
use vstd::prelude::*;

use crate::agent;
use crate::agent::AgentRecord;
use crate::constants;
use crate::id_map::IdMap;
use crate::json;
use crate::models;
use crate::models::AgentResult;
use crate::monitoring;
use crate::text;
use crate::text::same_text;
use crate::text_map::TextMap;
use crate::vars;

verus! {

/// What the service knows of a job.
#[derive(Debug)]
pub struct JobRecord {
    pub id: u128,
    pub project_id: Option<u128>,
    pub status: String,
    pub worker_ids: Vec<u128>,
    pub worker_labels: IdMap<TextMap<String>>,
    pub merged_branches: Vec<String>,
    pub merge_conflicts: Vec<String>,
    pub worker_names: IdMap<String>,
    pub dependency_graph: IdMap<Vec<u128>>,
    pub blocked_reasons: IdMap<String>,
    pub base_branch: String,
    pub merge_strategy: String,
    pub created_at: u64,
    pub completed_at: Option<u64>,
    pub updated_at: u64,
}

/// What a job's record stands for.
pub struct JobView {
    pub id: u128,
    pub project_id: Option<u128>,
    pub status: Seq<char>,
    pub worker_ids: Seq<u128>,
    pub worker_labels: Map<u128, Map<Seq<char>, Seq<char>>>,
    pub merged_branches: Seq<Seq<char>>,
    pub merge_conflicts: Seq<Seq<char>>,
    pub worker_names: Map<u128, Seq<char>>,
    pub dependency_graph: Map<u128, Seq<u128>>,
    pub blocked_reasons: Map<u128, Seq<char>>,
    pub base_branch: Seq<char>,
    pub merge_strategy: Seq<char>,
    pub created_at: u64,
    pub completed_at: Option<u64>,
    pub updated_at: u64,
}

/// A map to texts.
pub open spec fn text_values(m: Map<u128, String>) -> Map<u128, Seq<char>> {
    m.map_values(|s: String| s@)
}

/// A map to lists of identifiers.
pub open spec fn list_values(m: Map<u128, Vec<u128>>) -> Map<u128, Seq<u128>> {
    m.map_values(|v: Vec<u128>| v@)
}

/// A map to maps of texts.
pub open spec fn label_values(m: Map<u128, TextMap<String>>) -> Map<u128, Map<Seq<char>, Seq<char>>> {
    m.map_values(|t: TextMap<String>| vars::values_of(t@))
}

impl View for JobRecord {
    type V = JobView;

    open spec fn view(&self) -> JobView {
        JobView {
            id: self.id,
            project_id: self.project_id,
            status: self.status@,
            worker_ids: self.worker_ids@,
            worker_labels: label_values(self.worker_labels@),
            merged_branches: text::texts(self.merged_branches@),
            merge_conflicts: text::texts(self.merge_conflicts@),
            worker_names: text_values(self.worker_names@),
            dependency_graph: list_values(self.dependency_graph@),
            blocked_reasons: text_values(self.blocked_reasons@),
            base_branch: self.base_branch@,
            merge_strategy: self.merge_strategy@,
            created_at: self.created_at,
            completed_at: self.completed_at,
            updated_at: self.updated_at,
        }
    }
}

/// Whether a worker failed.
pub open spec fn worker_failed(r: models::ResultView) -> bool {
    r.completion_method == Some(constants::EVENT_METHOD_TURN_ABORTED@) || r.status
        == constants::AGENT_STATUS_ABORTED@ || r.status == constants::AGENT_STATUS_FAILED@
        || r.status == constants::AGENT_STATUS_BLOCKED@
}

/// Whether a worker succeeded.
pub open spec fn worker_succeeded(r: models::ResultView) -> bool {
    r.completed_at is Some && !worker_failed(r)
}

/// Whether a worker failed.
pub fn is_worker_failure(result: &AgentResult) -> (r: bool)
    ensures
        r == worker_failed(result@),
{
    let aborted = match &result.completion_method {
        Some(m) => same_text(m.as_str(), constants::EVENT_METHOD_TURN_ABORTED),
        None => false,
    };
    aborted || same_text(result.status.as_str(), constants::AGENT_STATUS_ABORTED) || same_text(
        result.status.as_str(),
        constants::AGENT_STATUS_FAILED,
    ) || same_text(result.status.as_str(), constants::AGENT_STATUS_BLOCKED)
}

/// Whether a worker succeeded.
pub fn is_worker_success(result: &AgentResult) -> (r: bool)
    ensures
        r == worker_succeeded(result@),
{
    result.completed_at.is_some() && !is_worker_failure(result)
}

/// Whether a job with this status has ended.
pub open spec fn is_terminal(status: Seq<char>) -> bool {
    status == constants::JOB_STATUS_COMPLETED@ || status == constants::JOB_STATUS_PARTIAL@ || status
        == constants::JOB_STATUS_FAILED@
}

/// Whether a job with this status has ended.
pub fn is_job_terminal_status(status: &str) -> (r: bool)
    ensures
        r == is_terminal(status@),
{
    same_text(status, constants::JOB_STATUS_COMPLETED) || same_text(
        status,
        constants::JOB_STATUS_PARTIAL,
    ) || same_text(status, constants::JOB_STATUS_FAILED)
}

/// Whether a worker is still at work: it has no result, or one that is not final.
pub open spec fn still_works(r: Option<models::ResultView>) -> bool {
    match r {
        Some(r) => r.status == constants::AGENT_STATUS_RUNNING@ || r.status
            == constants::AGENT_STATUS_INTERRUPTED@ || r.completed_at is None,
        None => true,
    }
}

/// Whether a worker's result is a failure.
pub open spec fn has_failed(r: Option<models::ResultView>) -> bool {
    r matches Some(r) && worker_failed(r)
}

/// Whether any worker is still at work.
pub open spec fn any_works(results: Seq<Option<models::ResultView>>) -> bool {
    exists|i: int| 0 <= i < results.len() && still_works(#[trigger] results[i])
}

/// Whether any worker failed.
pub open spec fn any_failed(results: Seq<Option<models::ResultView>>) -> bool {
    exists|i: int| 0 <= i < results.len() && has_failed(#[trigger] results[i])
}

/// The status of a job by the results of its workers.
pub open spec fn settled_status(results: Seq<Option<models::ResultView>>) -> Seq<char> {
    if any_works(results) {
        constants::JOB_STATUS_RUNNING@
    } else if any_failed(results) {
        constants::JOB_STATUS_FAILED@
    } else {
        constants::JOB_STATUS_COMPLETED@
    }
}

/// A job by the results of its workers. It keeps the time at which it first ended.
pub open spec fn settled(
    j: JobView,
    results: Seq<Option<models::ResultView>>,
    ts: u64,
) -> JobView {
    JobView {
        status: settled_status(results),
        completed_at: if any_works(results) {
            j.completed_at
        } else {
            json::either(j.completed_at, Some(ts))
        },
        updated_at: ts,
        ..j
    }
}

/// The results of the workers.
pub open spec fn result_views(results: Seq<Option<AgentResult>>) -> Seq<Option<models::ResultView>> {
    results.map_values(|r: Option<AgentResult>| models::opt_result(r))
}

/// Gives a job the status that the results of its workers ask for. Names the status where the
/// job has ended with it.
pub fn settle_job(job: &mut JobRecord, results: &Vec<Option<AgentResult>>, ts: u64) -> (r: Option<
    String,
>)
    ensures
        final(job)@ == settled(old(job)@, result_views(results@), ts),
        text::opt_text(r) == (if !is_terminal(old(job)@.status) && is_terminal(
            final(job)@.status,
        ) {
            Some(final(job)@.status)
        } else {
            None
        }),
{
    let ghost views = result_views(results@);
    let mut working = false;
    let mut failed = false;
    let mut i: usize = 0;
    while i < results.len()
        invariant
            i <= results@.len(),
            views == result_views(results@),
            working == (exists|k: int| 0 <= k < i && still_works(#[trigger] views[k])),
            failed == (exists|k: int| 0 <= k < i && has_failed(#[trigger] views[k])),
        decreases results@.len() - i,
    {
        assert(views[i as int] == models::opt_result(results@[i as int]));
        match &results[i] {
            Some(r) => {
                if same_text(r.status.as_str(), constants::AGENT_STATUS_RUNNING) || same_text(
                    r.status.as_str(),
                    constants::AGENT_STATUS_INTERRUPTED,
                ) || r.completed_at.is_none() {
                    assert(still_works(views[i as int]));
                    working = true;
                }
                if is_worker_failure(r) {
                    assert(has_failed(views[i as int]));
                    failed = true;
                }
            },
            None => {
                assert(still_works(views[i as int]));
                working = true;
            },
        }
        i += 1;
    }
    let was_terminal = is_job_terminal_status(job.status.as_str());
    if working {
        job.status = constants::JOB_STATUS_RUNNING.to_owned();
    } else {
        job.status = if failed {
            constants::JOB_STATUS_FAILED.to_owned()
        } else {
            constants::JOB_STATUS_COMPLETED.to_owned()
        };
        if job.completed_at.is_none() {
            job.completed_at = Some(ts);
        }
    }
    job.updated_at = ts;
    if !was_terminal && is_job_terminal_status(job.status.as_str()) {
        Some(job.status.clone())
    } else {
        None
    }
}

/// The position of the first record with an identifier.
pub open spec fn position_of(ids: Seq<u128>, id: u128) -> Option<int>
    decreases ids.len(),
{
    if ids.len() == 0 {
        None
    } else if ids[0] == id {
        Some(0)
    } else {
        match position_of(ids.skip(1), id) {
            Some(i) => Some(i + 1),
            None => None,
        }
    }
}

/// The first record stands where no earlier one has the identifier.
pub proof fn lemma_position_of(ids: Seq<u128>, id: u128, i: int)
    requires
        0 <= i <= ids.len(),
        forall|j: int| 0 <= j < i ==> ids[j] != id,
    ensures
        i == ids.len() ==> position_of(ids, id) is None,
        i < ids.len() && ids[i] == id ==> position_of(ids, id) == Some(i),
    decreases i,
{
    if i > 0 {
        assert forall|j: int| 0 <= j < i - 1 implies ids.skip(1)[j] != id by {
            assert(ids.skip(1)[j] == ids[j + 1]);
        }
        lemma_position_of(ids.skip(1), id, i - 1);
    }
}

/// At the position of an identifier stands the identifier.
pub proof fn lemma_position_found(ids: Seq<u128>, id: u128)
    ensures
        position_of(ids, id) matches Some(i) ==> 0 <= i < ids.len() && ids[i] == id,
        position_of(ids, id) is Some <==> ids.contains(id),
    decreases ids.len(),
{
    if ids.len() > 0 {
        lemma_position_found(ids.skip(1), id);
        if ids[0] == id {
            assert(ids.contains(id));
        } else {
            if ids.contains(id) {
                let i = choose|i: int| 0 <= i < ids.len() && ids[i] == id;
                assert(ids.skip(1)[i - 1] == id);
            }
            if ids.skip(1).contains(id) {
                let i = choose|i: int| 0 <= i < ids.skip(1).len() && ids.skip(1)[i] == id;
                assert(ids[i + 1] == id);
            }
        }
    }
}

/// The identifiers of the agents.
pub open spec fn agent_ids(agents: Seq<agent::AgentView>) -> Seq<u128> {
    agents.map_values(|a: agent::AgentView| a.id)
}

/// The agent of an identifier.
pub open spec fn agent_of(agents: Seq<agent::AgentView>, id: u128) -> Option<agent::AgentView> {
    match position_of(agent_ids(agents), id) {
        Some(i) => Some(agents[i]),
        None => None,
    }
}

/// The position of the agent of an identifier.
pub fn find_agent(agents: &Vec<AgentRecord>, id: u128) -> (r: Option<usize>)
    ensures
        r is Some == position_of(agent_ids(monitoring::agent_views(agents@)), id) is Some,
        r matches Some(i) ==> {
            &&& i < agents@.len()
            &&& position_of(agent_ids(monitoring::agent_views(agents@)), id) == Some(i as int)
            &&& agents@[i as int]@.id == id
            &&& agent_of(monitoring::agent_views(agents@), id) == Some(agents@[i as int]@)
        },
{
    let ghost ids = agent_ids(monitoring::agent_views(agents@));
    let mut i: usize = 0;
    while i < agents.len()
        invariant
            i <= agents@.len(),
            ids == agent_ids(monitoring::agent_views(agents@)),
            forall|j: int| 0 <= j < i ==> ids[j] != id,
        decreases agents@.len() - i,
    {
        assert(ids[i as int] == agents@[i as int]@.id);
        if agents[i].id == id {
            proof {
                lemma_position_of(ids, id, i as int);
            }
            return Some(i);
        }
        i += 1;
    }
    proof {
        lemma_position_of(ids, id, i as int);
    }
    None
}

/// The result of a worker: the one at hand where it is this worker's, else the one on record.
pub open spec fn known_result(
    agents: Seq<agent::AgentView>,
    id: u128,
    at_hand: Option<models::ResultView>,
) -> Option<models::ResultView> {
    match at_hand {
        Some(r) => if r.agent_id == id {
            Some(r)
        } else {
            match agent_of(agents, id) {
                Some(a) => a.result,
                None => None,
            }
        },
        None => match agent_of(agents, id) {
            Some(a) => a.result,
            None => None,
        },
    }
}

/// The results of the workers.
pub open spec fn known_results(
    agents: Seq<agent::AgentView>,
    ids: Seq<u128>,
    at_hand: Option<models::ResultView>,
) -> Seq<Option<models::ResultView>> {
    ids.map_values(|id: u128| known_result(agents, id, at_hand))
}

/// A copy of an optional result.
pub fn clone_opt_result(r: &Option<AgentResult>) -> (c: Option<AgentResult>)
    ensures
        models::opt_result(c) == models::opt_result(*r),
{
    match r {
        Some(r) => Some(r.clone()),
        None => None,
    }
}

/// The results of the workers.
fn collect_results(
    agents: &Vec<AgentRecord>,
    ids: &Vec<u128>,
    at_hand: &Option<AgentResult>,
) -> (r: Vec<Option<AgentResult>>)
    ensures
        result_views(r@) == known_results(
            monitoring::agent_views(agents@),
            ids@,
            models::opt_result(*at_hand),
        ),
{
    let ghost views = monitoring::agent_views(agents@);
    let ghost hand = models::opt_result(*at_hand);
    let mut results: Vec<Option<AgentResult>> = Vec::new();
    let mut i: usize = 0;
    while i < ids.len()
        invariant
            i <= ids@.len(),
            views == monitoring::agent_views(agents@),
            hand == models::opt_result(*at_hand),
            results@.len() == i,
            forall|k: int|
                0 <= k < i ==> models::opt_result(#[trigger] results@[k]) == known_result(
                    views,
                    ids@[k],
                    hand,
                ),
        decreases ids@.len() - i,
    {
        let id = ids[i];
        let matching = match at_hand {
            Some(r) => r.agent_id == id,
            None => false,
        };
        let found = if matching {
            clone_opt_result(at_hand)
        } else {
            match find_agent(agents, id) {
                Some(k) => clone_opt_result(&agents[k].result),
                None => None,
            }
        };
        results.push(found);
        i += 1;
    }
    assert(result_views(results@) == known_results(views, ids@, hand));
    results
}

/// Gives a job the status that its workers ask for. Names the status where the job has ended
/// with it.
pub fn update_job_after_worker_event(
    job: &mut JobRecord,
    agents: &Vec<AgentRecord>,
    at_hand: &Option<AgentResult>,
    ts: u64,
) -> (r: Option<String>)
    ensures
        final(job)@ == settled(
            old(job)@,
            known_results(
                monitoring::agent_views(agents@),
                old(job)@.worker_ids,
                models::opt_result(*at_hand),
            ),
            ts,
        ),
        text::opt_text(r) == (if !is_terminal(old(job)@.status) && is_terminal(
            final(job)@.status,
        ) {
            Some(final(job)@.status)
        } else {
            None
        }),
{
    let results = collect_results(agents, &job.worker_ids, at_hand);
    settle_job(job, &results, ts)
}

/// The status under which the results of a job's workers are reported.
pub open spec fn reported_status(total: nat, completed: nat, running: nat, failed: nat) -> Seq<char> {
    if total == 0 {
        constants::JOB_STATUS_EMPTY@
    } else if running > 0 {
        constants::JOB_STATUS_RUNNING@
    } else if completed == total {
        if failed == total {
            constants::JOB_STATUS_FAILED@
        } else if failed > 0 {
            constants::JOB_STATUS_PARTIAL@
        } else {
            constants::JOB_STATUS_COMPLETED@
        }
    } else if completed > 0 {
        constants::JOB_STATUS_PARTIAL@
    } else {
        constants::JOB_STATUS_QUEUED@
    }
}

/// The status under which the results of a job's workers are reported.
pub fn report_status(total: usize, completed: usize, running: usize, failed: usize) -> (r: String)
    ensures
        r@ == reported_status(total as nat, completed as nat, running as nat, failed as nat),
{
    let status = if total == 0 {
        constants::JOB_STATUS_EMPTY
    } else if running > 0 {
        constants::JOB_STATUS_RUNNING
    } else if completed == total {
        if failed == total {
            constants::JOB_STATUS_FAILED
        } else if failed > 0 {
            constants::JOB_STATUS_PARTIAL
        } else {
            constants::JOB_STATUS_COMPLETED
        }
    } else if completed > 0 {
        constants::JOB_STATUS_PARTIAL
    } else {
        constants::JOB_STATUS_QUEUED
    };
    status.to_owned()
}

/// A job ends exactly when none of its workers is at work any more, ends as failed exactly when
/// one of them failed, and keeps the time at which it first ended.
pub proof fn law_job_ends_with_its_workers(
    j: JobView,
    results: Seq<Option<models::ResultView>>,
    ts: u64,
)
    ensures
        is_terminal(settled(j, results, ts).status) <==> !any_works(results),
        settled(j, results, ts).status == constants::JOB_STATUS_FAILED@ <==> !any_works(results)
            && any_failed(results),
        j.completed_at is Some ==> settled(j, results, ts).completed_at == j.completed_at,
        !any_works(results) ==> settled(j, results, ts).completed_at is Some,
        settled(j, results, ts).worker_ids == j.worker_ids,
{
    reveal_strlit("running");
    reveal_strlit("completed");
    reveal_strlit("partial");
    reveal_strlit("failed");
    assert(constants::JOB_STATUS_RUNNING@.len() == 7);
    assert(constants::JOB_STATUS_COMPLETED@.len() == 9);
    assert(constants::JOB_STATUS_FAILED@.len() == 6);
    assert(constants::JOB_STATUS_PARTIAL@[0] == 'p');
    assert(constants::JOB_STATUS_RUNNING@[0] == 'r');
}

/// Once a job has been settled, settling it again at another time with the same results changes
/// nothing but the time of the last change.
pub proof fn law_settling_is_stable(
    j: JobView,
    results: Seq<Option<models::ResultView>>,
    first: u64,
    second: u64,
)
    ensures
        settled(settled(j, results, first), results, second) == (JobView {
            updated_at: second,
            ..settled(j, results, first)
        }),
{
}

/// What is reported of a job by the numbers of its workers: nothing to do without workers, running
/// while one of them runs, and once all are done, completed where none failed, failed where all
/// did, and partial in between. Before that it is partial where some are done and queued where none
/// is.
pub proof fn law_report_follows_the_workers(total: nat, completed: nat, running: nat, failed: nat)
    ensures
        total == 0 ==> reported_status(total, completed, running, failed) == "empty"@,
        total > 0 && running > 0 ==> reported_status(total, completed, running, failed)
            == "running"@,
        total > 0 && running == 0 && completed == total && failed == 0 ==> reported_status(
            total,
            completed,
            running,
            failed,
        ) == "completed"@,
        total > 0 && running == 0 && completed == total && failed == total ==> reported_status(
            total,
            completed,
            running,
            failed,
        ) == "failed"@,
        total > 0 && running == 0 && completed == total && 0 < failed && failed != total
            ==> reported_status(total, completed, running, failed) == "partial"@,
        total > 0 && running == 0 && completed != total && completed > 0 ==> reported_status(
            total,
            completed,
            running,
            failed,
        ) == "partial"@,
        total > 0 && running == 0 && completed != total && completed == 0 ==> reported_status(
            total,
            completed,
            running,
            failed,
        ) == "queued"@,
{
}

/// A worker counts as failed exactly where its turn was broken off or its result says that it was
/// aborted, failed or blocked. It has succeeded where its work is over and it has not failed.
pub proof fn law_failed_workers_are_known_by_their_results(r: models::ResultView)
    ensures
        worker_failed(r) <==> r.completion_method == Some("turn/aborted"@) || r.status
            == "aborted"@ || r.status == "failed"@ || r.status == "blocked"@,
        worker_succeeded(r) <==> r.completed_at is Some && r.completion_method != Some(
            "turn/aborted"@,
        ) && r.status != "aborted"@ && r.status != "failed"@ && r.status != "blocked"@,
{
}

/// A job whose workers all have results that are over and good is completed; one whose workers are
/// all over with one that failed has failed; and one with a worker without a result, or with one
/// that is not over, still runs and keeps no time of an end that it had not before.
pub proof fn law_job_is_what_its_workers_came_to(
    j: JobView,
    results: Seq<Option<models::ResultView>>,
    ts: u64,
)
    ensures
        (forall|i: int|
            0 <= i < results.len() ==> (#[trigger] results[i]) is Some && is_over(results[i]->0)
                && is_good(results[i]->0)) ==> settled(j, results, ts).status == "completed"@
            && settled(j, results, ts).completed_at is Some,
        (forall|i: int|
            0 <= i < results.len() ==> (#[trigger] results[i]) is Some && is_over(results[i]->0))
            && (exists|i: int|
            0 <= i < results.len() && (#[trigger] results[i]) is Some && !is_good(results[i]->0))
            ==> settled(j, results, ts).status == "failed"@ && settled(
            j,
            results,
            ts,
        ).completed_at is Some,
        (exists|i: int|
            0 <= i < results.len() && !((#[trigger] results[i]) is Some && is_over(results[i]->0)))
            ==> settled(j, results, ts).status == "running"@ && settled(
            j,
            results,
            ts,
        ).completed_at == j.completed_at,
        j.completed_at is None && settled(j, results, ts).completed_at is Some ==> settled(
            j,
            results,
            ts,
        ).completed_at == Some(ts),
        settled(j, results, ts).updated_at == ts,
        settled(j, results, ts).id == j.id,
{
    if exists|i: int|
        0 <= i < results.len() && (#[trigger] results[i]) is Some && !is_good(results[i]->0) {
        let i = choose|i: int|
            0 <= i < results.len() && (#[trigger] results[i]) is Some && !is_good(results[i]->0);
        assert(has_failed(results[i]));
    }
    if exists|i: int|
        0 <= i < results.len() && !((#[trigger] results[i]) is Some && is_over(results[i]->0)) {
        let i = choose|i: int|
            0 <= i < results.len() && !((#[trigger] results[i]) is Some && is_over(results[i]->0));
        assert(still_works(results[i]));
    }
}

/// A result that is over: it has its time, and it is neither that of a running worker nor that of
/// one that was interrupted.
pub open spec fn is_over(r: models::ResultView) -> bool {
    r.completed_at is Some && r.status != "running"@ && r.status != "interrupted"@
}

/// A result that tells of no failure.
pub open spec fn is_good(r: models::ResultView) -> bool {
    r.completion_method != Some("turn/aborted"@) && r.status != "aborted"@ && r.status != "failed"@
        && r.status != "blocked"@
}

/// A job has ended with the statuses completed, partial and failed, and with no other.
pub proof fn law_three_statuses_are_ends(status: Seq<char>)
    ensures
        is_terminal(status) <==> status == "completed"@ || status == "partial"@ || status
            == "failed"@,
{
}

/// The results of a job's workers come in the order of the workers; the one at hand is used for its
/// own worker and for no other.
pub proof fn law_results_are_those_of_the_workers(
    agents: Seq<agent::AgentView>,
    ids: Seq<u128>,
    at_hand: Option<models::ResultView>,
)
    ensures
        known_results(agents, ids, at_hand).len() == ids.len(),
        forall|i: int|
            0 <= i < ids.len() && at_hand is Some && at_hand->0.agent_id == ids[i]
                ==> #[trigger] known_results(agents, ids, at_hand)[i] == at_hand,
        forall|i: int, k: int|
            0 <= i < ids.len() && 0 <= k < agents.len() && agents[k].id == ids[i] && (forall|m: int|
                0 <= m < k ==> (#[trigger] agents[m]).id != ids[i]) && !(at_hand is Some
                && at_hand->0.agent_id == ids[i]) ==> #[trigger] known_results(
                agents,
                ids,
                at_hand,
            )[i] == (#[trigger] agents[k]).result,
        forall|i: int|
            0 <= i < ids.len() && !(at_hand is Some && at_hand->0.agent_id == ids[i]) && (forall|
                m: int,
            |
                0 <= m < agents.len() ==> (#[trigger] agents[m]).id != ids[i])
                ==> (#[trigger] known_results(agents, ids, at_hand)[i]) is None,
{
    let found = agent_ids(agents);
    assert forall|i: int, k: int|
        0 <= i < ids.len() && 0 <= k < agents.len() && agents[k].id == ids[i] && (forall|m: int|
            0 <= m < k ==> (#[trigger] agents[m]).id != ids[i]) && !(at_hand is Some
            && at_hand->0.agent_id == ids[i]) implies #[trigger] known_results(
        agents,
        ids,
        at_hand,
    )[i] == (#[trigger] agents[k]).result by {
        lemma_first_position(found, ids[i], k);
    }
    assert forall|i: int|
        0 <= i < ids.len() && !(at_hand is Some && at_hand->0.agent_id == ids[i]) && (forall|m: int|
            0 <= m < agents.len() ==> (#[trigger] agents[m]).id != ids[i]) implies (
    #[trigger] known_results(agents, ids, at_hand)[i]) is None by {
        lemma_position_found(found, ids[i]);
        if let Some(k) = position_of(found, ids[i]) {
            assert(agents[k].id == ids[i]);
        }
    }
}

proof fn lemma_first_position(ids: Seq<u128>, id: u128, k: int)
    requires
        0 <= k < ids.len(),
        ids[k] == id,
        forall|m: int| 0 <= m < k ==> (#[trigger] ids[m]) != id,
    ensures
        position_of(ids, id) == Some(k),
    decreases ids.len(),
{
    if k > 0 {
        assert(ids[0] != id);
        let rest = ids.skip(1);
        assert forall|m: int| 0 <= m < k - 1 implies (#[trigger] rest[m]) != id by {
            assert(rest[m] == ids[m + 1]);
        }
        lemma_first_position(rest, id, k - 1);
    }
}

} // verus!

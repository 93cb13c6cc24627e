//! The state of the service between runs: how it is kept, and how the service takes it up again.
use vstd::prelude::*;

use crate::agent;
use crate::agent::AgentRecord;
use crate::constants;
use crate::error::ForemanError;
use crate::governor::GovernorState;
use crate::job;
use crate::job::JobRecord;
use crate::json;
use crate::project;
use crate::project::{ProjectConfig, ProjectRuntimeFiles};
use crate::projects;
use crate::projects::ProjectRecord;
use crate::registry;
use crate::registry::Foreman;
use crate::restore;
use crate::restore::{
    persisted_agent_record, persisted_governor_record, persisted_job_record,
    persisted_project_record, restore_agent_record, restore_governor_record, restore_job_record,
    restore_project_record,
};
use crate::state::{
    PersistedAgentRecord, PersistedGovernorRecord, PersistedJobRecord, PersistedProjectRecord,
    PersistedState,
};
use crate::text_map;
use crate::text_map::TextMap;
use crate::vars;

verus! {

/// What is there now of a project that was kept.
#[derive(Debug)]
pub struct LiveProject {
    pub config: Option<ProjectConfig>,
    pub runtime: Option<ProjectRuntimeFiles>,
}

/// What is wrong with the first of the agents that is wrong.
pub open spec fn agents_problem(list: Seq<PersistedAgentRecord>) -> Option<Seq<Seq<char>>>
    decreases list.len(),
{
    if list.len() == 0 {
        None
    } else {
        json::either(restore::agent_problem(list[0]), agents_problem(list.skip(1)))
    }
}

/// What is wrong with the first of the projects that is wrong.
pub open spec fn projects_problem(list: Seq<PersistedProjectRecord>) -> Option<Seq<Seq<char>>>
    decreases list.len(),
{
    if list.len() == 0 {
        None
    } else {
        json::either(restore::project_problem(list[0]), projects_problem(list.skip(1)))
    }
}

/// What is wrong with a job that was kept, as it is reported.
pub open spec fn job_report(p: PersistedJobRecord) -> Option<Seq<Seq<char>>> {
    match restore::job_problem(p) {
        Some(chain) => Some(seq!["failed to restore job record from state"@] + chain),
        None => None,
    }
}

/// What is wrong with the first of the jobs that is wrong.
pub open spec fn jobs_problem(list: Seq<PersistedJobRecord>) -> Option<Seq<Seq<char>>>
    decreases list.len(),
{
    if list.len() == 0 {
        None
    } else {
        json::either(job_report(list[0]), jobs_problem(list.skip(1)))
    }
}

/// What is wrong with a state that was kept.
pub open spec fn state_problem(s: PersistedState) -> Option<Seq<Seq<char>>> {
    json::either(
        agents_problem(s.agents@),
        json::either(projects_problem(s.projects@), jobs_problem(s.jobs@)),
    )
}

/// The agents that were kept.
pub open spec fn kept_agents(list: Seq<PersistedAgentRecord>, now_ms: u64) -> Seq<agent::AgentView> {
    list.map_values(|p: PersistedAgentRecord| restore::kept_agent(p, now_ms))
}

/// The jobs that were kept.
pub open spec fn kept_jobs(list: Seq<PersistedJobRecord>) -> Seq<job::JobView> {
    list.map_values(|p: PersistedJobRecord| restore::kept_job(p))
}

/// Agents with more, one after the other.
pub open spec fn with_agents(agents: Seq<agent::AgentView>, more: Seq<agent::AgentView>) -> Seq<
    agent::AgentView,
>
    decreases more.len(),
{
    if more.len() == 0 {
        agents
    } else {
        registry::with_agent(with_agents(agents, more.drop_last()), more.last())
    }
}

/// The agent of each thread, with those of more agents.
pub open spec fn with_threads(threads: Map<Seq<char>, u128>, more: Seq<agent::AgentView>) -> Map<
    Seq<char>,
    u128,
>
    decreases more.len(),
{
    if more.len() == 0 {
        threads
    } else {
        with_threads(threads, more.drop_last()).insert(more.last().thread_id, more.last().id)
    }
}

/// Projects with more, one after the other.
pub open spec fn with_projects(
    projects: Seq<projects::ProjectView>,
    more: Seq<projects::ProjectView>,
) -> Seq<projects::ProjectView>
    decreases more.len(),
{
    if more.len() == 0 {
        projects
    } else {
        registry::with_project(with_projects(projects, more.drop_last()), more.last())
    }
}

/// Jobs with more, one after the other.
pub open spec fn with_jobs(jobs: Seq<job::JobView>, more: Seq<job::JobView>) -> Seq<job::JobView>
    decreases more.len(),
{
    if more.len() == 0 {
        jobs
    } else {
        registry::with_job(with_jobs(jobs, more.drop_last()), more.last())
    }
}

/// Whether projects are those that were kept.
pub open spec fn all_come_back(
    ps: Seq<projects::ProjectView>,
    records: Seq<PersistedProjectRecord>,
    live: Seq<LiveProject>,
) -> bool {
    &&& ps.len() == records.len()
    &&& forall|i: int|
        0 <= i < ps.len() ==> restore::comes_back(
            #[trigger] ps[i],
            records[i],
            live[i].config,
            live[i].runtime,
        )
}

/// The states of providers and models that were kept.
pub open spec fn kept_governors(m: Map<Seq<char>, PersistedGovernorRecord>) -> Map<
    Seq<char>,
    GovernorState,
> {
    m.map_values(|p: PersistedGovernorRecord| restore::kept_governor(p))
}

fn restore_agents(list: Vec<PersistedAgentRecord>, now_ms: u64) -> (r: Result<
    Vec<AgentRecord>,
    ForemanError,
>)
    ensures
        match agents_problem(list@) {
            None => r matches Ok(v) && crate::monitoring::agent_views(v@) == kept_agents(
                list@,
                now_ms,
            ),
            Some(chain) => r matches Err(e) && e@ == chain,
        },
{
    let ghost all = list@;
    let mut rest = list;
    let mut out: Vec<AgentRecord> = Vec::new();
    assert(all.skip(0) == all);
    while rest.len() > 0
        invariant
            all == list@,
            out@.len() + rest@.len() == all.len(),
            rest@ == all.skip(out@.len() as int),
            agents_problem(all) == agents_problem(rest@),
            forall|k: int|
                0 <= k < out@.len() ==> (#[trigger] out@[k])@ == restore::kept_agent(
                    all[k],
                    now_ms,
                ),
        decreases rest@.len(),
    {
        let ghost before = rest@;
        let record = rest.remove(0);
        proof {
            assert(record == before[0]);
            assert(before[0] == all[out@.len() as int]);
            assert(rest@ == before.skip(1));
            assert(before.skip(1) == all.skip(out@.len() as int + 1));
        }
        match restore_agent_record(record, now_ms) {
            Ok(agent) => {
                out.push(agent);
            },
            Err(e) => {
                return Err(e);
            },
        }
    }
    assert(crate::monitoring::agent_views(out@) == kept_agents(all, now_ms));
    Ok(out)
}

fn restore_projects(list: Vec<PersistedProjectRecord>, live: Vec<LiveProject>) -> (r: Result<
    Vec<ProjectRecord>,
    ForemanError,
>)
    requires
        live@.len() == list@.len(),
    ensures
        match projects_problem(list@) {
            None => r matches Ok(v) && all_come_back(registry::project_views(v@), list@, live@),
            Some(chain) => r matches Err(e) && e@ == chain,
        },
{
    let ghost all = list@;
    let ghost present = live@;
    let mut rest = list;
    let mut rest_live = live;
    let mut out: Vec<ProjectRecord> = Vec::new();
    assert(all.skip(0) == all);
    assert(present.skip(0) == present);
    while rest.len() > 0
        invariant
            all == list@,
            present == live@,
            out@.len() + rest@.len() == all.len(),
            present.len() == all.len(),
            rest@ == all.skip(out@.len() as int),
            rest_live@ == present.skip(out@.len() as int),
            projects_problem(all) == projects_problem(rest@),
            forall|k: int|
                0 <= k < out@.len() ==> restore::comes_back(
                    (#[trigger] out@[k])@,
                    all[k],
                    present[k].config,
                    present[k].runtime,
                ),
        decreases rest@.len(),
    {
        let ghost before = rest@;
        let ghost before_live = rest_live@;
        let record = rest.remove(0);
        let now = rest_live.remove(0);
        proof {
            assert(record == before[0]);
            assert(before[0] == all[out@.len() as int]);
            assert(now == before_live[0]);
            assert(before_live[0] == present[out@.len() as int]);
            assert(rest@ == before.skip(1));
            assert(before.skip(1) == all.skip(out@.len() as int + 1));
            assert(rest_live@ == before_live.skip(1));
            assert(before_live.skip(1) == present.skip(out@.len() as int + 1));
        }
        match restore_project_record(record, now.config, now.runtime) {
            Ok(project) => {
                out.push(project);
            },
            Err(e) => {
                return Err(e);
            },
        }
    }
    proof {
        let views = registry::project_views(out@);
        assert forall|i: int| 0 <= i < views.len() implies restore::comes_back(
            #[trigger] views[i],
            all[i],
            present[i].config,
            present[i].runtime,
        ) by {
            assert(views[i] == out@[i]@);
        }
    }
    Ok(out)
}

fn restore_jobs(list: Vec<PersistedJobRecord>) -> (r: Result<Vec<JobRecord>, ForemanError>)
    ensures
        match jobs_problem(list@) {
            None => r matches Ok(v) && registry::job_views(v@) == kept_jobs(list@),
            Some(chain) => r matches Err(e) && e@ == chain,
        },
{
    let ghost all = list@;
    let mut rest = list;
    let mut out: Vec<JobRecord> = Vec::new();
    assert(all.skip(0) == all);
    while rest.len() > 0
        invariant
            all == list@,
            out@.len() + rest@.len() == all.len(),
            rest@ == all.skip(out@.len() as int),
            jobs_problem(all) == jobs_problem(rest@),
            forall|k: int|
                0 <= k < out@.len() ==> (#[trigger] out@[k])@ == restore::kept_job(all[k]),
        decreases rest@.len(),
    {
        let ghost before = rest@;
        let record = rest.remove(0);
        proof {
            assert(record == before[0]);
            assert(before[0] == all[out@.len() as int]);
            assert(rest@ == before.skip(1));
            assert(before.skip(1) == all.skip(out@.len() as int + 1));
        }
        match restore_job_record(record) {
            Ok(job) => {
                out.push(job);
            },
            Err(e) => {
                return Err(e.context("failed to restore job record from state".to_owned()));
            },
        }
    }
    assert(registry::job_views(out@) == kept_jobs(all));
    Ok(out)
}

fn add_agents(foreman: &mut Foreman, list: Vec<AgentRecord>)
    ensures
        final(foreman)@ == (registry::ForemanView {
            agents: with_agents(
                old(foreman)@.agents,
                crate::monitoring::agent_views(list@),
            ),
            threads: with_threads(
                old(foreman)@.threads,
                crate::monitoring::agent_views(list@),
            ),
            ..old(foreman)@
        }),
        final(foreman).config == old(foreman).config,
        registry::well_formed(old(foreman)@) ==> registry::well_formed(final(foreman)@),
{
    let ghost all = crate::monitoring::agent_views(list@);
    let ghost before = foreman@;
    let ghost mut done: int = 0;
    let mut rest = list;
    proof {
        assert(all.take(0) == Seq::<agent::AgentView>::empty());
        assert(crate::monitoring::agent_views(rest@) == all.skip(0));
    }
    while rest.len() > 0
        invariant
            0 <= done <= all.len(),
            rest@.len() == all.len() - done,
            crate::monitoring::agent_views(rest@) == all.skip(done),
            foreman@ == (registry::ForemanView {
                agents: with_agents(before.agents, all.take(done)),
                threads: with_threads(before.threads, all.take(done)),
                ..before
            }),
            foreman.config == old(foreman).config,
            registry::well_formed(before) ==> registry::well_formed(foreman@),
        decreases rest@.len(),
    {
        let ghost views = crate::monitoring::agent_views(rest@);
        let agent = rest.remove(0);
        proof {
            assert(views[0] == all[done]);
            assert(agent@ == views[0]);
            assert(crate::monitoring::agent_views(rest@) == views.skip(1));
            assert(views.skip(1) == all.skip(done + 1));
            assert(all.take(done + 1).drop_last() == all.take(done));
            assert(all.take(done + 1).last() == all[done]);
        }
        foreman.insert_agent(agent);
        proof {
            done = done + 1;
        }
    }
    assert(all.take(done) == all);
}

fn add_projects(foreman: &mut Foreman, list: Vec<ProjectRecord>)
    ensures
        final(foreman)@ == (registry::ForemanView {
            projects: with_projects(
                old(foreman)@.projects,
                registry::project_views(list@),
            ),
            ..old(foreman)@
        }),
        final(foreman).config == old(foreman).config,
        registry::well_formed(old(foreman)@) ==> registry::well_formed(final(foreman)@),
{
    let ghost all = registry::project_views(list@);
    let ghost before = foreman@;
    let ghost mut done: int = 0;
    let mut rest = list;
    proof {
        assert(all.take(0) == Seq::<projects::ProjectView>::empty());
        assert(registry::project_views(rest@) == all.skip(0));
    }
    while rest.len() > 0
        invariant
            0 <= done <= all.len(),
            rest@.len() == all.len() - done,
            registry::project_views(rest@) == all.skip(done),
            foreman@ == (registry::ForemanView {
                projects: with_projects(before.projects, all.take(done)),
                ..before
            }),
            foreman.config == old(foreman).config,
            registry::well_formed(before) ==> registry::well_formed(foreman@),
        decreases rest@.len(),
    {
        let ghost views = registry::project_views(rest@);
        let project = rest.remove(0);
        proof {
            assert(views[0] == all[done]);
            assert(project@ == views[0]);
            assert(registry::project_views(rest@) == views.skip(1));
            assert(views.skip(1) == all.skip(done + 1));
            assert(all.take(done + 1).drop_last() == all.take(done));
            assert(all.take(done + 1).last() == all[done]);
        }
        foreman.insert_project(project);
        proof {
            done = done + 1;
        }
    }
    assert(all.take(done) == all);
}

fn add_jobs(foreman: &mut Foreman, list: Vec<JobRecord>)
    ensures
        final(foreman)@ == (registry::ForemanView {
            jobs: with_jobs(old(foreman)@.jobs, registry::job_views(list@)),
            ..old(foreman)@
        }),
        final(foreman).config == old(foreman).config,
        registry::well_formed(old(foreman)@) ==> registry::well_formed(final(foreman)@),
{
    let ghost all = registry::job_views(list@);
    let ghost before = foreman@;
    let ghost mut done: int = 0;
    let mut rest = list;
    proof {
        assert(all.take(0) == Seq::<job::JobView>::empty());
        assert(registry::job_views(rest@) == all.skip(0));
    }
    while rest.len() > 0
        invariant
            0 <= done <= all.len(),
            rest@.len() == all.len() - done,
            registry::job_views(rest@) == all.skip(done),
            foreman@ == (registry::ForemanView {
                jobs: with_jobs(before.jobs, all.take(done)),
                ..before
            }),
            foreman.config == old(foreman).config,
            registry::well_formed(before) ==> registry::well_formed(foreman@),
        decreases rest@.len(),
    {
        let ghost views = registry::job_views(rest@);
        let job = rest.remove(0);
        proof {
            assert(views[0] == all[done]);
            assert(job@ == views[0]);
            assert(registry::job_views(rest@) == views.skip(1));
            assert(views.skip(1) == all.skip(done + 1));
            assert(all.take(done + 1).drop_last() == all.take(done));
            assert(all.take(done + 1).last() == all[done]);
        }
        foreman.insert_job(job);
        proof {
            done = done + 1;
        }
    }
    assert(all.take(done) == all);
}

fn add_governors(governors: &mut TextMap<GovernorState>, kept: &TextMap<PersistedGovernorRecord>)
    ensures
        final(governors)@ == old(governors)@.union_prefer_right(kept_governors(kept@)),
{
    let ghost items = kept.items();
    let ghost before = governors@;
    let n: usize = kept.len();
    let mut i: usize = 0;
    proof {
        assert(items.take(0) == Seq::<(Seq<char>, PersistedGovernorRecord)>::empty());
        assert(before.union_prefer_right(kept_governors(text_map::map_of(items.take(0))))
            == before);
    }
    while i < n
        invariant
            i <= n,
            n == items.len(),
            items == kept.items(),
            governors@ == before.union_prefer_right(
                kept_governors(text_map::map_of(items.take(i as int))),
            ),
        decreases n - i,
    {
        proof {
            assert(items.take(i + 1).drop_last() == items.take(i as int));
            assert(items.take(i + 1).last() == items[i as int]);
            let part = text_map::map_of(items.take(i as int));
            let (k, v) = items[i as int];
            assert(kept_governors(part.insert(k, v)) == kept_governors(part).insert(
                k,
                restore::kept_governor(v),
            ));
            assert(before.union_prefer_right(kept_governors(part)).insert(
                k,
                restore::kept_governor(v),
            ) == before.union_prefer_right(
                kept_governors(part).insert(k, restore::kept_governor(v)),
            ));
        }
        let state = restore_governor_record(*kept.value_at(i));
        governors.insert(kept.key_at(i).clone(), state);
        i += 1;
    }
    assert(items.take(n as int) == items);
}

fn persist_governors(governors: &TextMap<GovernorState>) -> (r: TextMap<PersistedGovernorRecord>)
    ensures
        kept_governors(r@) == governors@,
{
    let ghost items = governors.items();
    let n: usize = governors.len();
    let mut out: TextMap<PersistedGovernorRecord> = TextMap::new();
    let mut i: usize = 0;
    proof {
        assert(items.take(0) == Seq::<(Seq<char>, GovernorState)>::empty());
        assert(kept_governors(out@) == Map::<Seq<char>, GovernorState>::empty());
    }
    while i < n
        invariant
            i <= n,
            n == items.len(),
            items == governors.items(),
            kept_governors(out@) == text_map::map_of(items.take(i as int)),
        decreases n - i,
    {
        proof {
            assert(items.take(i + 1).drop_last() == items.take(i as int));
            assert(items.take(i + 1).last() == items[i as int]);
        }
        let ghost before = out@;
        let record = persisted_governor_record(governors.value_at(i));
        out.insert(governors.key_at(i).clone(), record);
        assert(kept_governors(out@) == kept_governors(before).insert(
            items[i as int].0,
            restore::kept_governor(record),
        ));
        i += 1;
    }
    assert(items.take(n as int) == items);
    out
}

/// Whether a state that is kept holds what the service knows: every record is written in full, and
/// everything can be taken up again, and is the same then.
pub open spec fn keeps(s: PersistedState, v: registry::ForemanView) -> bool {
    &&& s.version == constants::PERSISTED_STATE_VERSION
    &&& state_problem(s) is None
    &&& s.agents@.len() == v.agents.len()
    &&& forall|i: int|
        0 <= i < s.agents@.len() ==> restore::agent_is_written(
            #[trigger] s.agents@[i],
            v.agents[i],
        )
    &&& forall|i: int, now_ms: u64|
        0 <= i < s.agents@.len() ==> #[trigger] restore::kept_agent(s.agents@[i], now_ms)
            == restore::resumed(v.agents[i], now_ms)
    &&& s.projects@.len() == v.projects.len()
    &&& forall|i: int|
        0 <= i < s.projects@.len() ==> restore::project_is_written(
            #[trigger] s.projects@[i],
            v.projects[i],
        )
    &&& forall|i: int|
        0 <= i < s.projects@.len() ==> restore::kept_project(#[trigger] s.projects@[i])
            == restore::keepsake(v.projects[i]) && project::same_config(
            v.projects[i].config,
            s.projects@[i].config,
        )
    &&& s.jobs@.len() == v.jobs.len()
    &&& forall|i: int|
        0 <= i < s.jobs@.len() ==> restore::job_is_written(#[trigger] s.jobs@[i], v.jobs[i])
    &&& kept_jobs(s.jobs@) == v.jobs
    &&& kept_governors(s.governors@) == v.governors
}

proof fn lemma_no_agent_problem(list: Seq<PersistedAgentRecord>)
    requires
        forall|i: int| 0 <= i < list.len() ==> restore::agent_problem(#[trigger] list[i]) is None,
    ensures
        agents_problem(list) is None,
    decreases list.len(),
{
    if list.len() > 0 {
        assert forall|i: int| 0 <= i < list.skip(1).len() implies restore::agent_problem(
            #[trigger] list.skip(1)[i],
        ) is None by {
            assert(list.skip(1)[i] == list[i + 1]);
        }
        lemma_no_agent_problem(list.skip(1));
    }
}

proof fn lemma_no_project_problem(list: Seq<PersistedProjectRecord>)
    requires
        forall|i: int| 0 <= i < list.len() ==> restore::project_problem(#[trigger] list[i]) is None,
    ensures
        projects_problem(list) is None,
    decreases list.len(),
{
    if list.len() > 0 {
        assert forall|i: int| 0 <= i < list.skip(1).len() implies restore::project_problem(
            #[trigger] list.skip(1)[i],
        ) is None by {
            assert(list.skip(1)[i] == list[i + 1]);
        }
        lemma_no_project_problem(list.skip(1));
    }
}

proof fn lemma_no_job_problem(list: Seq<PersistedJobRecord>)
    requires
        forall|i: int| 0 <= i < list.len() ==> restore::job_problem(#[trigger] list[i]) is None,
    ensures
        jobs_problem(list) is None,
    decreases list.len(),
{
    if list.len() > 0 {
        assert forall|i: int| 0 <= i < list.skip(1).len() implies restore::job_problem(
            #[trigger] list.skip(1)[i],
        ) is None by {
            assert(list.skip(1)[i] == list[i + 1]);
        }
        lemma_no_job_problem(list.skip(1));
    }
}

impl Foreman {
    /// The state as it is kept. All of it can be taken up again, and is the same then.
    pub fn persist_state_now(&self, now: u64) -> (r: PersistedState)
        ensures
            keeps(r, self@),
            r.generated_at == now,
    {
        let mut agents: Vec<PersistedAgentRecord> = Vec::new();
        let mut i: usize = 0;
        while i < self.agents.len()
            invariant
                i <= self.agents@.len(),
                agents@.len() == i,
                forall|k: int|
                    0 <= k < i ==> restore::agent_problem(#[trigger] agents@[k]) is None,
                forall|k: int|
                    0 <= k < i ==> restore::agent_is_written(
                        #[trigger] agents@[k],
                        self.agents@[k]@,
                    ),
                forall|k: int, now_ms: u64|
                    0 <= k < i ==> #[trigger] restore::kept_agent(agents@[k], now_ms)
                        == restore::resumed(self.agents@[k]@, now_ms),
            decreases self.agents@.len() - i,
        {
            agents.push(persisted_agent_record(&self.agents[i]));
            i += 1;
        }
        let mut projects: Vec<PersistedProjectRecord> = Vec::new();
        let mut j: usize = 0;
        while j < self.projects.len()
            invariant
                j <= self.projects@.len(),
                projects@.len() == j,
                forall|k: int|
                    0 <= k < j ==> restore::project_problem(#[trigger] projects@[k]) is None,
                forall|k: int|
                    0 <= k < j ==> restore::project_is_written(
                        #[trigger] projects@[k],
                        self.projects@[k]@,
                    ),
                forall|k: int|
                    0 <= k < j ==> restore::kept_project(#[trigger] projects@[k])
                        == restore::keepsake(self.projects@[k]@) && project::same_config(
                        self.projects@[k]@.config,
                        projects@[k].config,
                    ),
            decreases self.projects@.len() - j,
        {
            projects.push(persisted_project_record(&self.projects[j]));
            j += 1;
        }
        let mut jobs: Vec<PersistedJobRecord> = Vec::new();
        let mut k: usize = 0;
        while k < self.jobs.len()
            invariant
                k <= self.jobs@.len(),
                jobs@.len() == k,
                forall|n: int| 0 <= n < k ==> restore::job_problem(#[trigger] jobs@[n]) is None,
                forall|n: int|
                    0 <= n < k ==> restore::job_is_written(#[trigger] jobs@[n], self.jobs@[n]@),
                forall|n: int|
                    0 <= n < k ==> restore::kept_job(#[trigger] jobs@[n]) == self.jobs@[n]@,
            decreases self.jobs@.len() - k,
        {
            jobs.push(persisted_job_record(&self.jobs[k]));
            k += 1;
        }
        proof {
            lemma_no_agent_problem(agents@);
            lemma_no_project_problem(projects@);
            lemma_no_job_problem(jobs@);
            assert(kept_jobs(jobs@) == self@.jobs);
            assert forall|n: int, now_ms: u64|
                0 <= n < agents@.len() implies #[trigger] restore::kept_agent(agents@[n], now_ms)
                == restore::resumed(self@.agents[n], now_ms) by {}
        }
        PersistedState {
            version: constants::PERSISTED_STATE_VERSION,
            generated_at: now,
            agents,
            projects,
            jobs,
            governors: persist_governors(&self.governors),
        }
    }

    /// Takes up a state that was kept, with what is there now of its projects. Where anything in
    /// it is wrong, nothing of it is taken up.
    pub fn recover_state(&mut self, snapshot: PersistedState, live: Vec<LiveProject>, now_ms: u64) -> (r:
        Result<(), ForemanError>)
        requires
            live@.len() == snapshot.projects@.len(),
        ensures
            final(self).config == old(self).config,
            match state_problem(snapshot) {
                Some(chain) => {
                    &&& r matches Err(e) && e@ == chain
                    &&& final(self)@ == old(self)@
                },
                None => {
                    &&& r is Ok
                    &&& exists|ps: Seq<projects::ProjectView>| #[trigger]
                        all_come_back(ps, snapshot.projects@, live@) && final(self)@ == (
                        registry::ForemanView {
                            agents: with_agents(
                                old(self)@.agents,
                                kept_agents(snapshot.agents@, now_ms),
                            ),
                            threads: with_threads(
                                old(self)@.threads,
                                kept_agents(snapshot.agents@, now_ms),
                            ),
                            projects: with_projects(old(self)@.projects, ps),
                            jobs: with_jobs(old(self)@.jobs, kept_jobs(snapshot.jobs@)),
                            governors: old(self)@.governors.union_prefer_right(
                                kept_governors(snapshot.governors@),
                            ),
                            ..old(self)@
                        })
                },
            },
            registry::well_formed(old(self)@) ==> registry::well_formed(final(self)@),
    {
        let agents = match restore_agents(snapshot.agents, now_ms) {
            Ok(v) => v,
            Err(e) => {
                return Err(e);
            },
        };
        let projects = match restore_projects(snapshot.projects, live) {
            Ok(v) => v,
            Err(e) => {
                return Err(e);
            },
        };
        let jobs = match restore_jobs(snapshot.jobs) {
            Ok(v) => v,
            Err(e) => {
                return Err(e);
            },
        };
        let ghost ps = registry::project_views(projects@);
        add_projects(self, projects);
        add_agents(self, agents);
        add_jobs(self, jobs);
        let ghost formed = self@;
        add_governors(&mut self.governors, &snapshot.governors);
        proof {
            assert(all_come_back(ps, snapshot.projects@, live@));
            assert(self@.pending == formed.pending);
            assert(self@.agents == formed.agents);
            assert(self@.projects == formed.projects);
            assert(self@.jobs == formed.jobs);
        }
        Ok(())
    }
}

/// Among identifiers without a repetition the last is not among those before it.
proof fn lemma_last_is_new(ids: Seq<u128>)
    requires
        ids.len() > 0,
        ids.no_duplicates(),
    ensures
        job::position_of(ids.drop_last(), ids.last()) is None,
{
    job::lemma_position_found(ids.drop_last(), ids.last());
    if ids.drop_last().contains(ids.last()) {
        let k = choose|k: int| 0 <= k < ids.drop_last().len() && ids.drop_last()[k] == ids.last();
        assert(ids[k] == ids[ids.len() - 1]);
    }
}

/// Agents with identifiers of their own that are taken up by a service without agents are its
/// agents then, in the same order.
pub proof fn law_recovery_rebuilds_the_agents(list: Seq<agent::AgentView>)
    requires
        job::agent_ids(list).no_duplicates(),
    ensures
        with_agents(Seq::empty(), list) == list,
    decreases list.len(),
{
    if list.len() > 0 {
        let before = list.drop_last();
        let ids = job::agent_ids(list);
        assert(job::agent_ids(before) == ids.drop_last());
        law_recovery_rebuilds_the_agents(before);
        lemma_last_is_new(ids);
        assert(before.push(list.last()) == list);
    } else {
        assert(list == Seq::<agent::AgentView>::empty());
    }
}

/// What is kept of an agent does not wear out: an agent that was taken up again and kept once
/// more comes back as it was.
pub proof fn law_resuming_twice_changes_only_the_clock(a: agent::AgentView, first: u64, second: u64)
    requires
        a.created_at > 0,
        a.turns_completed > 0,
    ensures
        restore::resumed(restore::resumed(a, first), second) == restore::resumed(a, second),
{
}

proof fn lemma_projects_rebuilt(list: Seq<projects::ProjectView>)
    requires
        registry::project_ids(list).no_duplicates(),
    ensures
        with_projects(Seq::empty(), list) == list,
    decreases list.len(),
{
    if list.len() > 0 {
        let before = list.drop_last();
        let ids = registry::project_ids(list);
        assert(registry::project_ids(before) == ids.drop_last());
        lemma_projects_rebuilt(before);
        lemma_last_is_new(ids);
        assert(before.push(list.last()) == list);
    } else {
        assert(list == Seq::<projects::ProjectView>::empty());
    }
}

proof fn lemma_jobs_rebuilt(list: Seq<job::JobView>)
    requires
        registry::job_ids(list).no_duplicates(),
    ensures
        with_jobs(Seq::empty(), list) == list,
    decreases list.len(),
{
    if list.len() > 0 {
        let before = list.drop_last();
        let ids = registry::job_ids(list);
        assert(registry::job_ids(before) == ids.drop_last());
        lemma_jobs_rebuilt(before);
        lemma_last_is_new(ids);
        assert(before.push(list.last()) == list);
    } else {
        assert(list == Seq::<job::JobView>::empty());
    }
}

/// Whether a project goes on as it was, but for the configuration and the files, of which newer
/// ones may be there.
pub open spec fn goes_on(p: projects::ProjectView, before: projects::ProjectView) -> bool {
    &&& p.id == before.id
    &&& p.path == before.path
    &&& p.name == before.name
    &&& p.status == before.status
    &&& p.foreman_agent_id == before.foreman_agent_id
    &&& p.worker_ids == before.worker_ids
    &&& p.completed_worker_turns == before.completed_worker_turns
    &&& p.callback_status == vars::nothing_run().union_prefer_right(before.callback_status)
    &&& p.created_at == before.created_at
    &&& p.updated_at == before.updated_at
}

/// What a service kept comes back when a fresh service takes it up: nothing in it is refused, the
/// agents are the same with their time going on, the jobs and the states of providers and models
/// are the same, and each project goes on as it was, with its configuration where no newer one is
/// there.
pub proof fn law_kept_state_comes_back(
    s: PersistedState,
    v: registry::ForemanView,
    ps: Seq<projects::ProjectView>,
    live: Seq<LiveProject>,
    now_ms: u64,
)
    requires
        registry::well_formed(v),
        keeps(s, v),
        all_come_back(ps, s.projects@, live),
    ensures
        state_problem(s) is None,
        with_agents(Seq::empty(), kept_agents(s.agents@, now_ms)) == v.agents.map_values(
            |a: agent::AgentView| restore::resumed(a, now_ms),
        ),
        with_jobs(Seq::empty(), kept_jobs(s.jobs@)) == v.jobs,
        Map::<Seq<char>, GovernorState>::empty().union_prefer_right(kept_governors(s.governors@))
            == v.governors,
        with_projects(Seq::empty(), ps).len() == v.projects.len(),
        forall|i: int|
            0 <= i < v.projects.len() ==> goes_on(
                #[trigger] with_projects(Seq::empty(), ps)[i],
                v.projects[i],
            ),
        forall|i: int|
            0 <= i < v.projects.len() && live[i].config is None ==> project::same_config(
                v.projects[i].config,
                (#[trigger] with_projects(Seq::empty(), ps)[i]).config,
            ),
{
    let agents = kept_agents(s.agents@, now_ms);
    let resumed = v.agents.map_values(|a: agent::AgentView| restore::resumed(a, now_ms));
    assert forall|i: int| 0 <= i < agents.len() implies agents[i] == resumed[i] by {
        assert(restore::kept_agent(s.agents@[i], now_ms) == restore::resumed(v.agents[i], now_ms));
    }
    assert(agents == resumed);
    assert(job::agent_ids(agents) == job::agent_ids(v.agents));
    law_recovery_rebuilds_the_agents(agents);
    lemma_jobs_rebuilt(v.jobs);
    assert(Map::<Seq<char>, GovernorState>::empty().union_prefer_right(v.governors)
        == v.governors);
    assert forall|i: int| 0 <= i < ps.len() implies goes_on(#[trigger] ps[i], v.projects[i]) by {
        assert(restore::kept_project(s.projects@[i]) == restore::keepsake(v.projects[i]));
    }
    assert(registry::project_ids(ps) == registry::project_ids(v.projects)) by {
        assert forall|i: int| 0 <= i < ps.len() implies registry::project_ids(ps)[i]
            == registry::project_ids(v.projects)[i] by {
            assert(goes_on(ps[i], v.projects[i]));
        }
    }
    lemma_projects_rebuilt(ps);
    assert forall|i: int| 0 <= i < ps.len() && live[i].config is None implies project::same_config(
        v.projects[i].config,
        (#[trigger] ps[i]).config,
    ) by {
        assert(restore::kept_project(s.projects@[i]) == restore::keepsake(v.projects[i]));
    }
}

} // verus!

//! The state of the service: its agents, projects and jobs, and how they are found, added and
//! taken out.
use vstd::prelude::*;

use crate::agent;
use crate::agent::{AgentRecord, AgentRole};
use crate::agent_turns;
use crate::agent_turns::governor_release_permit;
use crate::config::ServiceConfig;
use crate::constants;
use crate::error::ForemanError;
use crate::governor::GovernorState;
use crate::job;
use crate::job::{find_agent, JobRecord};
use crate::models;
use crate::models::AgentEventDto;
use crate::monitoring;
use crate::projects;
use crate::projects::ProjectRecord;
use crate::text_map::TextMap;

verus! {

/// The state of the service.
#[derive(Debug)]
pub struct Foreman {
    pub config: ServiceConfig,
    pub agents: Vec<AgentRecord>,
    pub projects: Vec<ProjectRecord>,
    pub jobs: Vec<JobRecord>,
    /// The agent of each thread.
    pub thread_map: TextMap<u128>,
    /// The events of threads that no agent has yet.
    pub pending_events: TextMap<Vec<AgentEventDto>>,
    pub governors: TextMap<GovernorState>,
    /// When each filter last fired for each agent.
    pub callback_filter_debounce: TextMap<u64>,
    pub started_at: u64,
}

/// What the state stands for.
pub struct ForemanView {
    pub agents: Seq<agent::AgentView>,
    pub projects: Seq<projects::ProjectView>,
    pub jobs: Seq<job::JobView>,
    pub threads: Map<Seq<char>, u128>,
    pub pending: Map<Seq<char>, Seq<models::EventView>>,
    pub governors: Map<Seq<char>, GovernorState>,
    pub firings: Map<Seq<char>, u64>,
    pub started_at: u64,
}

/// The records of the projects.
pub open spec fn project_views(projects: Seq<ProjectRecord>) -> Seq<projects::ProjectView> {
    projects.map_values(|p: ProjectRecord| p@)
}

/// The records of the jobs.
pub open spec fn job_views(jobs: Seq<JobRecord>) -> Seq<job::JobView> {
    jobs.map_values(|j: JobRecord| j@)
}

/// The events of the threads that no agent has yet.
pub open spec fn pending_views(m: Map<Seq<char>, Vec<AgentEventDto>>) -> Map<
    Seq<char>,
    Seq<models::EventView>,
> {
    m.map_values(|v: Vec<AgentEventDto>| models::event_views(v@))
}

impl View for Foreman {
    type V = ForemanView;

    open spec fn view(&self) -> ForemanView {
        ForemanView {
            agents: monitoring::agent_views(self.agents@),
            projects: project_views(self.projects@),
            jobs: job_views(self.jobs@),
            threads: self.thread_map@,
            pending: pending_views(self.pending_events@),
            governors: self.governors@,
            firings: self.callback_filter_debounce@,
            started_at: self.started_at,
        }
    }
}

/// The identifiers of the projects.
pub open spec fn project_ids(projects: Seq<projects::ProjectView>) -> Seq<u128> {
    projects.map_values(|p: projects::ProjectView| p.id)
}

/// The identifiers of the jobs.
pub open spec fn job_ids(jobs: Seq<job::JobView>) -> Seq<u128> {
    jobs.map_values(|j: job::JobView| j.id)
}

/// No two records of a kind have the same identifier, and no thread has more events waiting for
/// its agent than are kept.
pub open spec fn well_formed(v: ForemanView) -> bool {
    &&& job::agent_ids(v.agents).no_duplicates()
    &&& project_ids(v.projects).no_duplicates()
    &&& job_ids(v.jobs).no_duplicates()
    &&& forall|t: Seq<char>| #[trigger]
        v.pending.dom().contains(t) ==> v.pending[t].len() <= constants::EVENT_BUFFER_MAX
}

/// A record in place of one with the same identifier leaves the identifiers as they are.
pub proof fn lemma_identifiers_stay(v: ForemanView)
    ensures
        forall|i: int, a: agent::AgentView|
            0 <= i < v.agents.len() && a.id == v.agents[i].id ==> job::agent_ids(
                #[trigger] v.agents.update(i, a),
            ) == job::agent_ids(v.agents),
        forall|i: int, p: projects::ProjectView|
            0 <= i < v.projects.len() && p.id == v.projects[i].id ==> project_ids(
                #[trigger] v.projects.update(i, p),
            ) == project_ids(v.projects),
        forall|i: int, j: job::JobView|
            0 <= i < v.jobs.len() && j.id == v.jobs[i].id ==> job_ids(
                #[trigger] v.jobs.update(i, j),
            ) == job_ids(v.jobs),
{
    assert forall|i: int, a: agent::AgentView|
        0 <= i < v.agents.len() && a.id == v.agents[i].id implies job::agent_ids(
        #[trigger] v.agents.update(i, a),
    ) == job::agent_ids(v.agents) by {
        assert(job::agent_ids(v.agents.update(i, a)) =~= job::agent_ids(v.agents));
    }
    assert forall|i: int, p: projects::ProjectView|
        0 <= i < v.projects.len() && p.id == v.projects[i].id implies project_ids(
        #[trigger] v.projects.update(i, p),
    ) == project_ids(v.projects) by {
        assert(project_ids(v.projects.update(i, p)) =~= project_ids(v.projects));
    }
    assert forall|i: int, j: job::JobView|
        0 <= i < v.jobs.len() && j.id == v.jobs[i].id implies job_ids(
        #[trigger] v.jobs.update(i, j),
    ) == job_ids(v.jobs) by {
        assert(job_ids(v.jobs.update(i, j)) =~= job_ids(v.jobs));
    }
}

/// A service whose agents are the same, whatever became of them, is as well-formed as before.
pub proof fn lemma_same_agents_stay_well_formed(v: ForemanView, w: ForemanView)
    requires
        w.agents.len() == v.agents.len(),
        forall|i: int| 0 <= i < v.agents.len() ==> (#[trigger] w.agents[i]).id == v.agents[i].id,
        w.projects == v.projects,
        w.jobs == v.jobs,
        w.pending == v.pending,
    ensures
        well_formed(v) ==> well_formed(w),
{
    assert(job::agent_ids(w.agents) == job::agent_ids(v.agents));
}

/// The project of an identifier.
pub open spec fn project_of(projects: Seq<projects::ProjectView>, id: u128) -> Option<
    projects::ProjectView,
> {
    match job::position_of(project_ids(projects), id) {
        Some(i) => Some(projects[i]),
        None => None,
    }
}

/// The job of an identifier.
pub open spec fn job_of(jobs: Seq<job::JobView>, id: u128) -> Option<job::JobView> {
    match job::position_of(job_ids(jobs), id) {
        Some(i) => Some(jobs[i]),
        None => None,
    }
}

/// The position of the project of an identifier.
pub fn find_project(projects: &Vec<ProjectRecord>, id: u128) -> (r: Option<usize>)
    ensures
        r is Some == job::position_of(project_ids(project_views(projects@)), id) is Some,
        r matches Some(i) ==> {
            &&& i < projects@.len()
            &&& job::position_of(project_ids(project_views(projects@)), id) == Some(i as int)
            &&& projects@[i as int]@.id == id
            &&& project_of(project_views(projects@), id) == Some(projects@[i as int]@)
        },
{
    let ghost ids = project_ids(project_views(projects@));
    let mut i: usize = 0;
    while i < projects.len()
        invariant
            i <= projects@.len(),
            ids == project_ids(project_views(projects@)),
            forall|j: int| 0 <= j < i ==> ids[j] != id,
        decreases projects@.len() - i,
    {
        assert(ids[i as int] == projects@[i as int]@.id);
        if projects[i].id == id {
            proof {
                job::lemma_position_of(ids, id, i as int);
            }
            return Some(i);
        }
        i += 1;
    }
    proof {
        job::lemma_position_of(ids, id, i as int);
    }
    None
}

/// The position of the job of an identifier.
pub fn find_job(jobs: &Vec<JobRecord>, id: u128) -> (r: Option<usize>)
    ensures
        r is Some == job::position_of(job_ids(job_views(jobs@)), id) is Some,
        r matches Some(i) ==> {
            &&& i < jobs@.len()
            &&& job::position_of(job_ids(job_views(jobs@)), id) == Some(i as int)
            &&& jobs@[i as int]@.id == id
            &&& job_of(job_views(jobs@), id) == Some(jobs@[i as int]@)
        },
{
    let ghost ids = job_ids(job_views(jobs@));
    let mut i: usize = 0;
    while i < jobs.len()
        invariant
            i <= jobs@.len(),
            ids == job_ids(job_views(jobs@)),
            forall|j: int| 0 <= j < i ==> ids[j] != id,
        decreases jobs@.len() - i,
    {
        assert(ids[i as int] == jobs@[i as int]@.id);
        if jobs[i].id == id {
            proof {
                job::lemma_position_of(ids, id, i as int);
            }
            return Some(i);
        }
        i += 1;
    }
    proof {
        job::lemma_position_of(ids, id, i as int);
    }
    None
}

/// The agents with one more, which takes the place of one with the same identifier.
pub open spec fn with_agent(agents: Seq<agent::AgentView>, a: agent::AgentView) -> Seq<
    agent::AgentView,
> {
    match job::position_of(job::agent_ids(agents), a.id) {
        Some(i) => agents.update(i, a),
        None => agents.push(a),
    }
}

/// The projects with one more, which takes the place of one with the same identifier.
pub open spec fn with_project(
    projects: Seq<projects::ProjectView>,
    p: projects::ProjectView,
) -> Seq<projects::ProjectView> {
    match job::position_of(project_ids(projects), p.id) {
        Some(i) => projects.update(i, p),
        None => projects.push(p),
    }
}

/// The jobs with one more, which takes the place of one with the same identifier.
pub open spec fn with_job(jobs: Seq<job::JobView>, j: job::JobView) -> Seq<job::JobView> {
    match job::position_of(job_ids(jobs), j.id) {
        Some(i) => jobs.update(i, j),
        None => jobs.push(j),
    }
}

/// Without a repetition there is none after one more identifier is added that is new.
proof fn lemma_push_unique(ids: Seq<u128>, id: u128)
    requires
        ids.no_duplicates(),
        job::position_of(ids, id) is None,
    ensures
        ids.push(id).no_duplicates(),
{
    job::lemma_position_found(ids, id);
    assert(!ids.contains(id));
}

/// Adding a record keeps the identifiers apart, and the record is found by its identifier.
pub proof fn law_records_are_found_by_identifier(
    agents: Seq<agent::AgentView>,
    a: agent::AgentView,
    other: u128,
)
    requires
        job::agent_ids(agents).no_duplicates(),
    ensures
        job::agent_ids(with_agent(agents, a)).no_duplicates(),
        job::agent_of(with_agent(agents, a), a.id) == Some(a),
        other != a.id ==> job::agent_of(with_agent(agents, a), other) == job::agent_of(
            agents,
            other,
        ),
{
    let ids = job::agent_ids(agents);
    let after = with_agent(agents, a);
    job::lemma_position_found(ids, a.id);
    match job::position_of(ids, a.id) {
        Some(i) => {
            assert(job::agent_ids(after) == ids);
            job::lemma_position_found(ids, other);
        },
        None => {
            assert(job::agent_ids(after) == ids.push(a.id));
            lemma_push_unique(ids, a.id);
            lemma_position_push(ids, a.id, a.id);
            lemma_position_push(ids, a.id, other);
            job::lemma_position_found(ids, other);
        },
    }
}

proof fn lemma_position_push(ids: Seq<u128>, last: u128, id: u128)
    ensures
        job::position_of(ids, id) is Some ==> job::position_of(ids.push(last), id)
            == job::position_of(ids, id),
        job::position_of(ids, id) is None && id == last ==> job::position_of(ids.push(last), id)
            == Some(ids.len() as int),
        job::position_of(ids, id) is None && id != last ==> job::position_of(ids.push(last), id)
            is None,
    decreases ids.len(),
{
    let all = ids.push(last);
    if ids.len() == 0 {
        assert(all[0] == last);
        assert(all.skip(1).len() == 0);
        assert(job::position_of(all.skip(1), id) is None);
    } else {
        assert(all[0] == ids[0]);
        assert(all.skip(1) == ids.skip(1).push(last));
        lemma_position_push(ids.skip(1), last, id);
    }
}

/// A job that was added is found under its identifier.
pub proof fn lemma_with_job(jobs: Seq<job::JobView>, j: job::JobView)
    ensures
        job_of(with_job(jobs, j), j.id) == Some(j),
{
    let ids = job_ids(jobs);
    let after = with_job(jobs, j);
    job::lemma_position_found(ids, j.id);
    match job::position_of(ids, j.id) {
        Some(i) => {
            assert(job_ids(after) == ids);
        },
        None => {
            assert(job_ids(after) == ids.push(j.id));
            lemma_position_push(ids, j.id, j.id);
        },
    }
}

/// Identifiers without one.
pub open spec fn without(ids: Seq<u128>, id: u128) -> Seq<u128>
    decreases ids.len(),
{
    if ids.len() == 0 {
        Seq::empty()
    } else if ids.last() == id {
        without(ids.drop_last(), id)
    } else {
        without(ids.drop_last(), id).push(ids.last())
    }
}

/// Identifiers without one.
pub fn remove_id(ids: &Vec<u128>, id: u128) -> (r: Vec<u128>)
    ensures
        r@ == without(ids@, id),
{
    let mut out: Vec<u128> = Vec::new();
    let mut i: usize = 0;
    assert(ids@.take(0) == Seq::<u128>::empty());
    while i < ids.len()
        invariant
            i <= ids@.len(),
            out@ == without(ids@.take(i as int), id),
        decreases ids@.len() - i,
    {
        proof {
            assert(ids@.take(i + 1).drop_last() == ids@.take(i as int));
            assert(ids@.take(i + 1).last() == ids@[i as int]);
        }
        if ids[i] != id {
            out.push(ids[i]);
        }
        i += 1;
    }
    assert(ids@.take(i as int) == ids@);
    out
}

/// An identifier that is taken out is gone.
pub proof fn lemma_without(ids: Seq<u128>, id: u128)
    ensures
        !without(ids, id).contains(id),
    decreases ids.len(),
{
    if ids.len() > 0 {
        lemma_without(ids.drop_last(), id);
    }
}

/// A project after one of its agents is closed.
pub open spec fn project_without(p: projects::ProjectView, a: agent::AgentView, ts: u64) -> projects::ProjectView {
    let b = projects::ProjectView {
        updated_at: ts,
        worker_ids: without(p.worker_ids, a.id),
        ..p
    };
    if a.role == AgentRole::Foreman && p.foreman_agent_id == Some(a.id) {
        projects::ProjectView {
            foreman_agent_id: None,
            status: constants::AGENT_STATUS_ORPHANED@,
            ..b
        }
    } else {
        b
    }
}

/// A job after one of its workers is closed.
pub open spec fn job_without(j: job::JobView, id: u128, ts: u64) -> job::JobView {
    let left = without(j.worker_ids, id);
    job::JobView {
        updated_at: ts,
        worker_ids: left,
        completed_at: if left.len() == 0 {
            Some(ts)
        } else {
            j.completed_at
        },
        ..j
    }
}

fn leave_project(project: &mut ProjectRecord, agent: &AgentRecord, ts: u64)
    ensures
        final(project)@ == project_without(old(project)@, agent@, ts),
{
    project.updated_at = ts;
    project.worker_ids = remove_id(&project.worker_ids, agent.id);
    if agent.role == AgentRole::Foreman && project.foreman_agent_id == Some(agent.id) {
        project.foreman_agent_id = None;
        project.status = constants::AGENT_STATUS_ORPHANED.to_owned();
    }
}

fn leave_job(job: &mut JobRecord, id: u128, ts: u64)
    ensures
        final(job)@ == job_without(old(job)@, id, ts),
{
    job.updated_at = ts;
    job.worker_ids = remove_id(&job.worker_ids, id);
    if job.worker_ids.len() == 0 {
        job.completed_at = Some(ts);
    }
}

/// The state after an agent is closed.
pub open spec fn after_close(v: ForemanView, i: int, ts: u64) -> ForemanView {
    let a = v.agents[i];
    ForemanView {
        agents: v.agents.remove(i),
        threads: v.threads.remove(a.thread_id),
        projects: match a.project_id {
            Some(id) => match job::position_of(project_ids(v.projects), id) {
                Some(k) => v.projects.update(k, project_without(v.projects[k], a, ts)),
                None => v.projects,
            },
            None => v.projects,
        },
        jobs: match a.job_id {
            Some(id) => match job::position_of(job_ids(v.jobs), id) {
                Some(k) => v.jobs.update(k, job_without(v.jobs[k], a.id, ts)),
                None => v.jobs,
            },
            None => v.jobs,
        },
        governors: match a.governor_key {
            Some(key) => if a.governor_inflight {
                agent_turns::after_release(v.governors, key)
            } else {
                v.governors
            },
            None => v.governors,
        },
        ..v
    }
}

impl Foreman {
    /// A service without agents, projects and jobs.
    pub fn new(config: ServiceConfig, started_at: u64) -> (r: Self)
        ensures
            r.config == config,
            r@ == (ForemanView {
                agents: Seq::empty(),
                projects: Seq::empty(),
                jobs: Seq::empty(),
                threads: Map::empty(),
                pending: Map::empty(),
                governors: Map::empty(),
                firings: Map::empty(),
                started_at,
            }),
            well_formed(r@),
    {
        let r = Foreman {
            config,
            agents: Vec::new(),
            projects: Vec::new(),
            jobs: Vec::new(),
            thread_map: TextMap::new(),
            pending_events: TextMap::new(),
            governors: TextMap::new(),
            callback_filter_debounce: TextMap::new(),
            started_at,
        };
        proof {
            assert(r@.agents == Seq::<agent::AgentView>::empty());
            assert(r@.projects == Seq::<projects::ProjectView>::empty());
            assert(r@.jobs == Seq::<job::JobView>::empty());
            assert(r@.pending == Map::<Seq<char>, Seq<models::EventView>>::empty());
        }
        r
    }

    /// The position of an agent.
    pub fn agent_index(&self, agent_id: u128) -> (r: Result<usize, ForemanError>)
        ensures
            match job::position_of(job::agent_ids(self@.agents), agent_id) {
                Some(i) => r matches Ok(k) && k == i && k < self.agents@.len() && job::agent_of(
                    self@.agents,
                    agent_id,
                ) == Some(self.agents@[i]@),
                None => r matches Err(e) && e@ == seq!["agent not found"@],
            },
    {
        match find_agent(&self.agents, agent_id) {
            Some(i) => Ok(i),
            None => Err(ForemanError::from_text("agent not found")),
        }
    }

    /// The position of a project.
    pub fn project_index(&self, project_id: u128) -> (r: Result<usize, ForemanError>)
        ensures
            match job::position_of(project_ids(self@.projects), project_id) {
                Some(i) => r matches Ok(k) && k == i && k < self.projects@.len() && project_of(
                    self@.projects,
                    project_id,
                ) == Some(self.projects@[i]@),
                None => r matches Err(e) && e@ == seq!["project not found"@],
            },
    {
        match find_project(&self.projects, project_id) {
            Some(i) => Ok(i),
            None => Err(ForemanError::from_text("project not found")),
        }
    }

    /// The position of a job.
    pub fn job_index(&self, job_id: u128) -> (r: Result<usize, ForemanError>)
        ensures
            match job::position_of(job_ids(self@.jobs), job_id) {
                Some(i) => r matches Ok(k) && k == i && k < self.jobs@.len() && job_of(
                    self@.jobs,
                    job_id,
                ) == Some(self.jobs@[i]@),
                None => r matches Err(e) && e@ == seq!["job not found"@],
            },
    {
        match find_job(&self.jobs, job_id) {
            Some(i) => Ok(i),
            None => Err(ForemanError::from_text("job not found")),
        }
    }

    /// Adds an agent, whose thread is its own from now on.
    pub fn insert_agent(&mut self, agent: AgentRecord)
        ensures
            final(self)@ == (ForemanView {
                agents: with_agent(old(self)@.agents, agent@),
                threads: old(self)@.threads.insert(agent@.thread_id, agent@.id),
                ..old(self)@
            }),
            final(self).config == old(self).config,
            well_formed(old(self)@) ==> well_formed(final(self)@),
    {
        let ghost before = self@;
        let thread_id = agent.thread_id.clone();
        let id = agent.id;
        let ghost view = agent@;
        proof {
            if well_formed(before) {
                law_records_are_found_by_identifier(before.agents, view, 0);
            }
            job::lemma_position_found(job::agent_ids(before.agents), id);
        }
        match find_agent(&self.agents, id) {
            Some(i) => {
                self.agents.set(i, agent);
                assert(self@.agents == before.agents.update(i as int, view));
            },
            None => {
                self.agents.push(agent);
                assert(self@.agents == before.agents.push(view));
            },
        }
        self.thread_map.insert(thread_id, id);
    }

    /// Adds a project.
    pub fn insert_project(&mut self, project: ProjectRecord)
        ensures
            final(self)@ == (ForemanView {
                projects: with_project(old(self)@.projects, project@),
                ..old(self)@
            }),
            final(self).config == old(self).config,
            well_formed(old(self)@) ==> well_formed(final(self)@),
    {
        let ghost before = self@;
        let ghost view = project@;
        let ghost ids = project_ids(before.projects);
        proof {
            job::lemma_position_found(ids, view.id);
            if ids.no_duplicates() && job::position_of(ids, view.id) is None {
                lemma_push_unique(ids, view.id);
            }
        }
        match find_project(&self.projects, project.id) {
            Some(i) => {
                self.projects.set(i, project);
                assert(self@.projects == before.projects.update(i as int, view));
                assert(project_ids(self@.projects) == ids);
            },
            None => {
                self.projects.push(project);
                assert(self@.projects == before.projects.push(view));
                assert(project_ids(self@.projects) == ids.push(view.id));
            },
        }
    }

    /// Adds a job.
    pub fn insert_job(&mut self, job: JobRecord)
        ensures
            final(self)@ == (ForemanView {
                jobs: with_job(old(self)@.jobs, job@),
                ..old(self)@
            }),
            final(self).config == old(self).config,
            well_formed(old(self)@) ==> well_formed(final(self)@),
    {
        let ghost before = self@;
        let ghost view = job@;
        let ghost ids = job_ids(before.jobs);
        proof {
            job::lemma_position_found(ids, view.id);
            if ids.no_duplicates() && job::position_of(ids, view.id) is None {
                lemma_push_unique(ids, view.id);
            }
        }
        match find_job(&self.jobs, job.id) {
            Some(i) => {
                self.jobs.set(i, job);
                assert(self@.jobs == before.jobs.update(i as int, view));
                assert(job_ids(self@.jobs) == ids);
            },
            None => {
                self.jobs.push(job);
                assert(self@.jobs == before.jobs.push(view));
                assert(job_ids(self@.jobs) == ids.push(view.id));
            },
        }
    }

    /// Closes an agent: it is gone from the service, from its project, from its job and from the
    /// requests that are under way.
    pub fn close_agent(&mut self, agent_id: u128, ts: u64) -> (r: Result<(), ForemanError>)
        ensures
            match job::position_of(job::agent_ids(old(self)@.agents), agent_id) {
                Some(i) => r is Ok && final(self)@ == after_close(old(self)@, i, ts),
                None => {
                    &&& r matches Err(e) && e@ == seq!["agent not found"@]
                    &&& final(self)@ == old(self)@
                },
            },
            final(self).config == old(self).config,
            well_formed(old(self)@) ==> well_formed(final(self)@),
    {
        let ghost before = self@;
        let i: usize = match self.agent_index(agent_id) {
            Ok(i) => i,
            Err(e) => {
                return Err(e);
            },
        };
        proof {
            job::lemma_position_found(job::agent_ids(before.agents), agent_id);
        }
        let agent = self.agents.remove(i);
        proof {
            assert(agent@ == before.agents[i as int]);
            assert(self@.agents == before.agents.remove(i as int));
            assert(job::agent_ids(self@.agents) == job::agent_ids(before.agents).remove(i as int));
        }
        self.thread_map.remove(agent.thread_id.as_str());
        if let Some(project_id) = agent.project_id {
            if let Some(k) = find_project(&self.projects, project_id) {
                leave_project(&mut self.projects[k], &agent, ts);
                assert(self@.projects == before.projects.update(
                    k as int,
                    project_without(before.projects[k as int], agent@, ts),
                ));
            }
        }
        assert(project_ids(self@.projects) == project_ids(before.projects));
        if let Some(job_id) = agent.job_id {
            if let Some(k) = find_job(&self.jobs, job_id) {
                leave_job(&mut self.jobs[k], agent.id, ts);
                assert(self@.jobs == before.jobs.update(
                    k as int,
                    job_without(before.jobs[k as int], agent@.id, ts),
                ));
            }
        }
        assert(job_ids(self@.jobs) == job_ids(before.jobs));
        if agent.governor_inflight {
            if let Some(key) = &agent.governor_key {
                governor_release_permit(&mut self.governors, key.as_str());
            }
        }
        proof {
            let ids = job::agent_ids(before.agents);
            assert(job::agent_ids(self@.agents) == ids.remove(i as int));
            if ids.no_duplicates() {
                assert(ids.remove(i as int).no_duplicates());
            }
            assert(project_ids(self@.projects) == project_ids(before.projects));
            assert(job_ids(self@.jobs) == job_ids(before.jobs));
            assert(self@.pending == before.pending);
        }
        Ok(())
    }

    /// Takes a project out of the service.
    pub fn take_project(&mut self, project_id: u128) -> (r: Result<ProjectRecord, ForemanError>)
        ensures
            match job::position_of(project_ids(old(self)@.projects), project_id) {
                Some(i) => {
                    &&& r matches Ok(p) && p@ == old(self)@.projects[i]
                    &&& final(self)@ == (ForemanView {
                        projects: old(self)@.projects.remove(i),
                        ..old(self)@
                    })
                },
                None => {
                    &&& r matches Err(e) && e@ == seq!["project not found"@]
                    &&& final(self)@ == old(self)@
                },
            },
            final(self).config == old(self).config,
            well_formed(old(self)@) ==> well_formed(final(self)@),
    {
        let ghost before = self@;
        let i: usize = match self.project_index(project_id) {
            Ok(i) => i,
            Err(e) => {
                return Err(e);
            },
        };
        proof {
            job::lemma_position_found(project_ids(before.projects), project_id);
        }
        let project = self.projects.remove(i);
        proof {
            assert(project@ == before.projects[i as int]);
            assert(self@.projects == before.projects.remove(i as int));
            assert(project_ids(self@.projects) == project_ids(before.projects).remove(i as int));
        }
        Ok(project)
    }

    /// Takes the jobs of a project out of the service.
    pub fn drop_project_jobs(&mut self, project_id: u128)
        ensures
            final(self)@ == (ForemanView {
                jobs: jobs_without(old(self)@.jobs, project_id),
                ..old(self)@
            }),
            final(self).config == old(self).config,
            well_formed(old(self)@) ==> well_formed(final(self)@),
    {
        let ghost before = self@;
        proof {
            if job_ids(before.jobs).no_duplicates() {
                lemma_fewer_jobs_are_apart(before.jobs, project_id);
            }
        }
        let mut i: usize = self.jobs.len();
        assert(before.jobs.skip(i as int) == Seq::<job::JobView>::empty());
        assert(jobs_without(Seq::<job::JobView>::empty(), project_id) == Seq::<
            job::JobView,
        >::empty());
        assert(before.jobs.take(i as int) == before.jobs);
        while i > 0
            invariant
                i <= self.jobs@.len(),
                i <= before.jobs.len(),
                self@ == (ForemanView { jobs: self@.jobs, ..before }),
                self.config == old(self).config,
                self@.jobs == before.jobs.take(i as int) + jobs_without(
                    before.jobs.skip(i as int),
                    project_id,
                ),
            decreases i,
        {
            let ghost now = self@.jobs;
            i -= 1;
            proof {
                lemma_jobs_without_first(before.jobs.skip(i as int), project_id);
                assert(before.jobs.skip(i as int).skip(1) == before.jobs.skip(i + 1));
                assert(before.jobs.skip(i as int)[0] == before.jobs[i as int]);
                assert(now[i as int] == before.jobs[i as int]);
                assert(self.jobs@[i as int]@ == now[i as int]);
            }
            let leaves = match self.jobs[i].project_id {
                Some(id) => id == project_id,
                None => false,
            };
            if leaves {
                self.jobs.remove(i);
                assert(self@.jobs == now.remove(i as int));
            }
            assert(self@.jobs == before.jobs.take(i as int) + jobs_without(
                before.jobs.skip(i as int),
                project_id,
            ));
        }
        assert(before.jobs.take(0) + jobs_without(before.jobs.skip(0), project_id)
            == jobs_without(before.jobs, project_id)) by {
            assert(before.jobs.skip(0) == before.jobs);
        }
    }
}

/// The jobs that are not of a project.
pub open spec fn jobs_without(jobs: Seq<job::JobView>, project_id: u128) -> Seq<job::JobView> {
    jobs.filter(|j: job::JobView| j.project_id != Some(project_id))
}

proof fn lemma_fewer_jobs_are_apart(jobs: Seq<job::JobView>, project_id: u128)
    requires
        job_ids(jobs).no_duplicates(),
    ensures
        job_ids(jobs_without(jobs, project_id)).no_duplicates(),
        forall|k: int|
            0 <= k < jobs_without(jobs, project_id).len() ==> job_ids(jobs).contains(
                (#[trigger] jobs_without(jobs, project_id)[k]).id,
            ),
    decreases jobs.len(),
{
    reveal(Seq::filter);
    let all = job_ids(jobs);
    let left = jobs_without(jobs, project_id);
    if jobs.len() > 0 {
        let rest = jobs.drop_last();
        let before = jobs_without(rest, project_id);
        assert(job_ids(rest) == all.drop_last());
        lemma_fewer_jobs_are_apart(rest, project_id);
        assert forall|k: int| 0 <= k < left.len() implies all.contains((#[trigger] left[k]).id) by {
            if k < before.len() {
                assert(left[k] == before[k]);
                let m = choose|m: int| 0 <= m < rest.len() && job_ids(rest)[m] == before[k].id;
                assert(all[m] == before[k].id);
            } else {
                assert(all[jobs.len() - 1] == left[k].id);
            }
        }
        if left.len() > before.len() {
            assert(job_ids(left) == job_ids(before).push(jobs.last().id));
            assert forall|k: int| 0 <= k < before.len() implies #[trigger] job_ids(before)[k]
                != jobs.last().id by {
                assert(job_ids(rest).contains(before[k].id));
                let m = choose|m: int| 0 <= m < rest.len() && job_ids(rest)[m] == before[k].id;
                assert(all[m] != all[jobs.len() - 1]);
            }
        } else {
            assert(left == before);
        }
    }
}

proof fn lemma_jobs_without_first(jobs: Seq<job::JobView>, project_id: u128)
    requires
        jobs.len() > 0,
    ensures
        jobs_without(jobs, project_id) == (if jobs[0].project_id == Some(project_id) {
            jobs_without(jobs.skip(1), project_id)
        } else {
            seq![jobs[0]] + jobs_without(jobs.skip(1), project_id)
        }),
{
    let keep = |j: job::JobView| j.project_id != Some(project_id);
    let first = seq![jobs[0]];
    assert(jobs == first + jobs.skip(1));
    Seq::filter_distributes_over_add(first, jobs.skip(1), keep);
    assert(first.filter(keep) == (if keep(jobs[0]) {
        first
    } else {
        Seq::<job::JobView>::empty()
    })) by {
        reveal(Seq::filter);
        assert(first.drop_last() == Seq::<job::JobView>::empty());
        assert(Seq::<job::JobView>::empty().filter(keep) == Seq::<job::JobView>::empty());
    }
    assert(Seq::<job::JobView>::empty() + jobs.skip(1).filter(keep) == jobs.skip(1).filter(keep));
}

/// A closed agent is gone: it is not found, its thread has no agent, and its project and its job
/// no longer list it.
pub proof fn law_closed_agent_is_gone(v: ForemanView, i: int, ts: u64)
    requires
        well_formed(v),
        0 <= i < v.agents.len(),
    ensures
        job::agent_of(after_close(v, i, ts).agents, v.agents[i].id) is None,
        !after_close(v, i, ts).threads.dom().contains(v.agents[i].thread_id),
        v.agents[i].project_id matches Some(p) ==> (project_of(
            after_close(v, i, ts).projects,
            p,
        ) matches Some(x) ==> !x.worker_ids.contains(v.agents[i].id)),
        v.agents[i].job_id matches Some(j) ==> (job_of(after_close(v, i, ts).jobs, j) matches Some(
            x,
        ) ==> !x.worker_ids.contains(v.agents[i].id)),
{
    let a = v.agents[i];
    let after = after_close(v, i, ts);
    let ids = job::agent_ids(v.agents);
    assert(job::agent_ids(after.agents) == ids.remove(i));
    job::lemma_position_found(ids.remove(i), a.id);
    assert(!ids.remove(i).contains(a.id)) by {
        if ids.remove(i).contains(a.id) {
            let k = choose|k: int| 0 <= k < ids.remove(i).len() && ids.remove(i)[k] == a.id;
            if k < i {
                assert(ids[k] == ids[i]);
            } else {
                assert(ids[k + 1] == ids[i]);
            }
        }
    }
    if let Some(p) = a.project_id {
        job::lemma_position_found(project_ids(v.projects), p);
        if let Some(k) = job::position_of(project_ids(v.projects), p) {
            assert(project_ids(after.projects) == project_ids(v.projects));
            lemma_without(v.projects[k].worker_ids, a.id);
        }
    }
    if let Some(j) = a.job_id {
        job::lemma_position_found(job_ids(v.jobs), j);
        if let Some(k) = job::position_of(job_ids(v.jobs), j) {
            assert(job_ids(after.jobs) == job_ids(v.jobs));
            lemma_without(v.jobs[k].worker_ids, a.id);
        }
    }
}

/// What is left of a list without an identifier is everything else, in order.
pub proof fn law_only_one_identifier_leaves(ids: Seq<u128>, id: u128)
    ensures
        without(ids, id) == ids.filter(|x: u128| x != id),
    decreases ids.len(),
{
    reveal(Seq::filter);
    if ids.len() > 0 {
        law_only_one_identifier_leaves(ids.drop_last(), id);
    }
}

/// An agent that leaves takes only itself: its project keeps its other workers, and without its
/// foreman is orphaned; a job is complete once its last worker has left, and no sooner.
pub proof fn law_closing_leaves_the_others(
    p: projects::ProjectView,
    j: job::JobView,
    a: agent::AgentView,
    ts: u64,
)
    ensures
        ({
            let q = project_without(p, a, ts);
            &&& q.worker_ids == p.worker_ids.filter(|x: u128| x != a.id)
            &&& a.role == AgentRole::Foreman && p.foreman_agent_id == Some(a.id)
                ==> q.foreman_agent_id is None && q.status == "orphaned"@
            &&& a.role != AgentRole::Foreman || p.foreman_agent_id != Some(a.id)
                ==> q.foreman_agent_id == p.foreman_agent_id && q.status == p.status
            &&& q.id == p.id && q.path == p.path && q.config == p.config && q.updated_at == ts
        }),
        ({
            let k = job_without(j, a.id, ts);
            &&& k.worker_ids == j.worker_ids.filter(|x: u128| x != a.id)
            &&& k.worker_ids.len() == 0 ==> k.completed_at == Some(ts)
            &&& k.worker_ids.len() > 0 ==> k.completed_at == j.completed_at
            &&& k.id == j.id && k.status == j.status && k.merged_branches == j.merged_branches
        }),
{
    law_only_one_identifier_leaves(p.worker_ids, a.id);
    law_only_one_identifier_leaves(j.worker_ids, a.id);
}

/// Closing an agent leaves every other agent and its thread; a request that it had under way is
/// under way no more.
pub proof fn law_closing_touches_no_other_agent(v: ForemanView, i: int, ts: u64, other: Seq<char>)
    requires
        0 <= i < v.agents.len(),
    ensures
        ({
            let w = after_close(v, i, ts);
            &&& w.agents.len() == v.agents.len() - 1
            &&& forall|k: int| 0 <= k < i ==> #[trigger] w.agents[k] == v.agents[k]
            &&& forall|k: int| i <= k < w.agents.len() ==> #[trigger] w.agents[k] == v.agents[k + 1]
            &&& other != v.agents[i].thread_id && v.threads.dom().contains(other)
                ==> w.threads.dom().contains(other) && w.threads[other] == v.threads[other]
            &&& w.pending == v.pending
            &&& v.agents[i].governor_key is Some && v.agents[i].governor_inflight
                && v.governors.dom().contains(v.agents[i].governor_key->0)
                && v.governors[v.agents[i].governor_key->0].inflight_count > 0
                ==> w.governors[v.agents[i].governor_key->0].inflight_count
                == v.governors[v.agents[i].governor_key->0].inflight_count - 1
            &&& !v.agents[i].governor_inflight ==> w.governors == v.governors
            &&& v.agents[i].project_id is None ==> w.projects == v.projects
            &&& v.agents[i].job_id is None ==> w.jobs == v.jobs
        }),
{
}

} // verus!

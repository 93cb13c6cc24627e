//! The workers of projects and jobs in the state of the service: how they are made, watched and
//! cleaned up after.
use vstd::prelude::*;

use crate::agent;
use crate::agent::WorkerCallback;
use crate::constants;
use crate::error::ForemanError;
use crate::foreman;
use crate::job;
use crate::job::{find_agent, JobRecord};
use crate::job_status;
use crate::jobs;
use crate::jobs::{place_worker, resolve_worker_callback, JobWorkerSpecResolved, WorkerPlace};
use crate::models::{
    CreateProjectJobsRequest, CreateProjectJobsResponse, JobResult, JobWaitResponse,
    PlanProjectJobsResponse, ProjectJobWorkerSpec, SpawnAgentResponse, SpawnProjectWorkerRequest,
    SpawnProjectWorkerResponse,
};
use crate::monitoring;
use crate::monitoring::{find_stalled_workers, RestartStep};
use crate::projects;
use crate::projects::worker_task_prompt;
use crate::registry;
use crate::registry::{find_job, find_project, Foreman};
use crate::resolve;
use crate::resolve::EnvVars;
use crate::scope;
use crate::scope::assign_worker_names;
use crate::text;
use crate::text_map::TextMap;
use crate::worktree;
use crate::worktree::{cleanup_worker_worktree, GitCommand};

verus! {

/// A worker of a project as it is to be started.
#[derive(Debug)]
pub struct ProjectWorkerPlan {
    pub foreman_id: u128,
    pub callback: WorkerCallback,
    pub prompt: String,
    pub place: WorkerPlace,
}

/// A job whose workers may be started.
#[derive(Debug)]
pub struct JobStart {
    pub foreman_id: u128,
    pub names: Vec<String>,
}

/// Whether a worker has a callback and a place to work, or why it has none.
pub open spec fn is_worker_start(
    r: Result<(WorkerCallback, WorkerPlace), ForemanError>,
    config: crate::config::ServiceConfig,
    p: projects::ProjectView,
    spec_: ProjectJobWorkerSpec,
    worker_count: nat,
    job_id: u128,
    worker_id: u128,
    env: Map<Seq<char>, Option<String>>,
) -> bool {
    match resolve::project_resolved(
        config,
        p.config.callbacks.worker,
        p.config.callbacks.profiles@,
        spec_.callback_overrides,
        false,
        env,
    ) {
        Ok(c) => r matches Ok(x) && x.0@ == c && jobs::is_place(
            x.1,
            p.runtime.path@,
            text::opt_text(spec_.cwd),
            spec_.worktree,
            p.config.jobs.defaults,
            worker_count,
            job_id,
            worker_id,
        ),
        Err(chain) => r matches Err(e) && e@ == seq!["failed to resolve worker callback"@] + chain,
    }
}

/// The state with a job and with its workers in the list of its project.
pub open spec fn with_new_job(
    v: registry::ForemanView,
    project_id: u128,
    j: job::JobView,
    ts: u64,
) -> registry::ForemanView {
    registry::ForemanView {
        projects: match job::position_of(registry::project_ids(v.projects), project_id) {
            Some(i) => v.projects.update(
                i,
                projects::ProjectView {
                    worker_ids: v.projects[i].worker_ids + j.worker_ids,
                    updated_at: ts,
                    ..v.projects[i]
                },
            ),
            None => v.projects,
        },
        jobs: registry::with_job(v.jobs, j),
        ..v
    }
}

impl Foreman {
    /// The workers that have stalled.
    pub fn enforce_worker_monitoring(&self, now: u64, inactivity_timeout_ms: u64) -> (r: Vec<u128>)
        ensures
            r@ == monitoring::stalled_ids(self@.agents, now, inactivity_timeout_ms),
    {
        find_stalled_workers(&self.agents, now, inactivity_timeout_ms)
    }

    /// Starts to start a stalled worker again, or gives it up where that was done often enough.
    pub fn restart_stalled_worker(
        &mut self,
        agent_id: u128,
        inactivity_timeout_ms: u64,
        max_restarts: u32,
        ts: u64,
    ) -> (r: RestartStep)
        ensures
            match job::position_of(job::agent_ids(old(self)@.agents), agent_id) {
                Some(i) => {
                    let a = old(self)@.agents[i];
                    &&& final(self)@ == foreman::set_agent(
                        old(self)@,
                        i,
                        if !monitoring::is_candidate(a) {
                            a
                        } else if a.restart_attempts >= max_restarts {
                            monitoring::after_giving_up(a, inactivity_timeout_ms, ts)
                        } else {
                            monitoring::while_restarting(a, ts)
                        },
                    )
                    &&& match r {
                        RestartStep::Skip => !monitoring::is_candidate(a),
                        RestartStep::GiveUp { project_id, job_id } => {
                            &&& monitoring::is_candidate(a)
                            &&& a.restart_attempts >= max_restarts
                            &&& project_id == a.project_id
                            &&& job_id == a.job_id
                        },
                        RestartStep::Restart {
                            project_id,
                            job_id,
                            thread_id,
                            prompt,
                            active_turn_id,
                        } => {
                            &&& monitoring::is_candidate(a)
                            &&& a.restart_attempts < max_restarts
                            &&& project_id == a.project_id
                            &&& job_id == a.job_id
                            &&& thread_id@ == a.thread_id
                            &&& Some(prompt@) == a.prompt
                            &&& text::opt_text(active_turn_id) == a.active_turn_id
                        },
                    }
                },
                None => r is Skip && final(self)@ == old(self)@,
            },
            final(self).config == old(self).config,
            registry::well_formed(old(self)@) ==> registry::well_formed(final(self)@),
    {
        let ghost before = self@;
        proof {
            job::lemma_position_found(job::agent_ids(before.agents), agent_id);
        }
        match find_agent(&self.agents, agent_id) {
            Some(i) => {
                let step = monitoring::begin_restart(
                    &mut self.agents[i],
                    inactivity_timeout_ms,
                    max_restarts,
                    ts,
                );
                proof {
                    assert(self@.agents == before.agents.update(i as int, self.agents@[i as int]@));
                    registry::lemma_same_agents_stay_well_formed(before, self@);
                }
                step
            },
            None => RestartStep::Skip,
        }
    }

    /// Takes note of what came of sending a stalled worker's prompt once more. Says whether the
    /// worker is still there.
    pub fn finish_restart(
        &mut self,
        agent_id: u128,
        interrupted: &Option<String>,
        outcome: Result<String, String>,
        ts: u64,
    ) -> (r: bool)
        ensures
            match job::position_of(job::agent_ids(old(self)@.agents), agent_id) {
                Some(i) => r && final(self)@ == foreman::set_agent(
                    old(self)@,
                    i,
                    match outcome {
                        Ok(turn) => monitoring::after_restart(
                            old(self)@.agents[i],
                            text::opt_text(*interrupted),
                            turn@,
                            ts,
                        ),
                        Err(error) => monitoring::after_failed_restart(
                            old(self)@.agents[i],
                            error@,
                            ts,
                        ),
                    },
                ),
                None => !r && final(self)@ == old(self)@,
            },
            final(self).config == old(self).config,
            registry::well_formed(old(self)@) ==> registry::well_formed(final(self)@),
    {
        let ghost before = self@;
        proof {
            job::lemma_position_found(job::agent_ids(before.agents), agent_id);
        }
        match find_agent(&self.agents, agent_id) {
            Some(i) => {
                monitoring::finish_restart(&mut self.agents[i], interrupted, outcome, ts);
                proof {
                    assert(self@.agents == before.agents.update(i as int, self.agents@[i as int]@));
                    registry::lemma_same_agents_stay_well_formed(before, self@);
                }
                true
            },
            None => false,
        }
    }

    /// A worker of a project as it is to be started.
    pub fn spawn_project_worker(
        &self,
        project_id: u128,
        request: &SpawnProjectWorkerRequest,
        worker_id: u128,
        env: &EnvVars,
    ) -> (r: Result<ProjectWorkerPlan, ForemanError>)
        ensures
            match registry::project_of(self@.projects, project_id) {
                None => r matches Err(e) && e@ == seq!["project not found"@],
                Some(p) => match p.foreman_agent_id {
                    None => r matches Err(e) && e@ == seq!["project has no foreman"@],
                    Some(foreman_id) => match resolve::project_resolved(
                        self.config,
                        p.config.callbacks.worker,
                        p.config.callbacks.profiles@,
                        request.callback_overrides,
                        false,
                        env@,
                    ) {
                        Err(chain) => r matches Err(e) && e@ == seq![
                            "failed to resolve worker callback"@,
                        ] + chain,
                        Ok(c) => r matches Ok(plan) && {
                            &&& plan.foreman_id == foreman_id
                            &&& plan.callback@ == c
                            &&& plan.prompt@ == projects::task_prompt(
                                p.runtime.worker_prompt@,
                                request.prompt@,
                            )
                            &&& jobs::is_place(
                                plan.place,
                                p.runtime.path@,
                                text::opt_text(request.cwd),
                                request.worktree,
                                p.config.jobs.defaults,
                                1,
                                project_id,
                                worker_id,
                            )
                        },
                    },
                },
            },
    {
        let (i, foreman_id): (usize, u128) = match self.project_and_foreman(project_id) {
            Ok(x) => x,
            Err(e) => {
                return Err(e);
            },
        };
        let project = &self.projects[i];
        let callback = match resolve_worker_callback(
            &self.config,
            project,
            &request.callback_overrides,
            env,
        ) {
            Ok(callback) => callback,
            Err(e) => {
                return Err(e);
            },
        };
        let place = place_worker(
            project.runtime.path.as_str(),
            &request.cwd,
            &request.worktree,
            &project.config.jobs.defaults,
            1,
            project_id,
            worker_id,
        );
        Ok(
            ProjectWorkerPlan {
                foreman_id,
                callback,
                prompt: worker_task_prompt(&project.runtime, request.prompt.as_str()),
                place,
            },
        )
    }

    /// Takes note of a worker of a project that was started, and tells of it.
    pub fn finish_project_worker(
        &mut self,
        project_id: u128,
        foreman_id: u128,
        response: SpawnAgentResponse,
        native: Option<(String, String)>,
        ts: u64,
    ) -> (r: SpawnProjectWorkerResponse)
        ensures
            r.id == response.id,
            r.thread_id == response.thread_id,
            r.turn_id == response.turn_id,
            r.status == response.status,
            r.role == response.role,
            r.project_id == project_id,
            r.foreman_id == foreman_id,
            final(self)@.agents == (match native {
                Some(n) => match job::position_of(
                    job::agent_ids(old(self)@.agents),
                    response.id,
                ) {
                    Some(i) => old(self)@.agents.update(
                        i,
                        agent::AgentView {
                            worktree_path: Some(n.0@),
                            branch_name: Some(n.1@),
                            ..old(self)@.agents[i]
                        },
                    ),
                    None => old(self)@.agents,
                },
                None => old(self)@.agents,
            }),
            final(self)@.projects == (match job::position_of(
                registry::project_ids(old(self)@.projects),
                project_id,
            ) {
                Some(i) => old(self)@.projects.update(
                    i,
                    projects::ProjectView {
                        worker_ids: old(self)@.projects[i].worker_ids.push(response.id),
                        updated_at: ts,
                        ..old(self)@.projects[i]
                    },
                ),
                None => old(self)@.projects,
            }),
            final(self)@ == (registry::ForemanView {
                agents: final(self)@.agents,
                projects: final(self)@.projects,
                ..old(self)@
            }),
            final(self).config == old(self).config,
            registry::well_formed(old(self)@) ==> registry::well_formed(final(self)@),
    {
        let ghost before = self@;
        proof {
            job::lemma_position_found(job::agent_ids(before.agents), response.id);
            job::lemma_position_found(registry::project_ids(before.projects), project_id);
        }
        if let Some((worktree_path, branch_name)) = native {
            if let Some(i) = find_agent(&self.agents, response.id) {
                let agent = &mut self.agents[i];
                agent.worktree_path = Some(worktree_path);
                agent.branch_name = Some(branch_name);
                proof {
                    assert(self@.agents == before.agents.update(i as int, self.agents@[i as int]@));
                    registry::lemma_same_agents_stay_well_formed(before, self@);
                }
            }
        }
        let mut added: Vec<u128> = Vec::new();
        added.push(response.id);
        assert(added@ == seq![response.id]);
        self.add_project_workers(project_id, &added, ts);
        proof {
            if let Some(i) = job::position_of(registry::project_ids(before.projects), project_id) {
                assert(before.projects[i].worker_ids + added@ == before.projects[i].worker_ids.push(
                    response.id,
                ));
            }
        }
        SpawnProjectWorkerResponse {
            id: response.id,
            thread_id: response.thread_id,
            turn_id: response.turn_id,
            status: response.status,
            project_id,
            foreman_id,
            role: response.role,
        }
    }

    /// Checks that a job may be made, and names its workers.
    pub fn create_project_jobs(&self, project_id: u128, request: &CreateProjectJobsRequest) -> (r:
        Result<JobStart, ForemanError>)
        ensures
            if request.workers@.len() == 0 {
                r matches Err(e) && e@ == seq!["at least one worker spec is required"@]
            } else {
                match registry::project_of(self@.projects, project_id) {
                    None => r matches Err(e) && e@ == seq!["project not found"@],
                    Some(p) => {
                        ||| exists|j: int| #[trigger]
                            scope::first_repeat(scope::worker_names(request.workers@), j) && (
                            r matches Err(e) && e@ == seq![
                                "duplicate worker name '"@ + scope::worker_names(
                                    request.workers@,
                                )[j] + "'"@,
                            ])
                        ||| (forall|j: int|
                            0 <= j < request.workers@.len() ==> !scope::repeats(
                                scope::worker_names(request.workers@),
                                j,
                            )) && exists|plan: PlanProjectJobsResponse| #[trigger]
                            jobs::is_plan(plan, p, request.workers@, Map::empty()) && (
                            match jobs::overlap_problem(plan, request.approve_overlap) {
                                Some(message) => r matches Err(e) && e@ == seq![message],
                                None => match p.foreman_agent_id {
                                    None => r matches Err(e) && e@ == seq![
                                        "project has no foreman"@,
                                    ],
                                    Some(id) => r matches Ok(start) && start.foreman_id == id
                                        && text::texts(start.names@) == scope::worker_names(
                                        request.workers@,
                                    ),
                                },
                            })
                    },
                }
            },
    {
        if request.workers.len() == 0 {
            return Err(ForemanError::from_text("at least one worker spec is required"));
        }
        let i: usize = match self.project_index(project_id) {
            Ok(i) => i,
            Err(e) => {
                return Err(e);
            },
        };
        let declared: TextMap<Vec<String>> = TextMap::new();
        let plan = match jobs::plan_workers(&self.projects[i], &request.workers, &declared) {
            Ok(plan) => plan,
            Err(e) => {
                return Err(e);
            },
        };
        proof {
            assert(declared@ == Map::<Seq<char>, Vec<String>>::empty());
            assert(jobs::is_plan(plan, self.projects@[i as int]@, request.workers@, Map::empty()));
        }
        if let Err(e) = jobs::check_overlap(&plan, request.approve_overlap) {
            return Err(e);
        }
        let foreman_id: u128 = match self.projects[i].foreman_agent_id {
            Some(id) => id,
            None => {
                return Err(ForemanError::from_text("project has no foreman"));
            },
        };
        match assign_worker_names(&request.workers) {
            Ok(names) => Ok(JobStart { foreman_id, names }),
            Err(e) => Err(e),
        }
    }

    /// The callback of a worker of a job, and where it works.
    pub fn begin_job_worker(
        &self,
        project_id: u128,
        spec_: &ProjectJobWorkerSpec,
        worker_count: usize,
        job_id: u128,
        worker_id: u128,
        env: &EnvVars,
    ) -> (r: Result<(WorkerCallback, WorkerPlace), ForemanError>)
        ensures
            match registry::project_of(self@.projects, project_id) {
                None => r matches Err(e) && e@ == seq!["project not found"@],
                Some(p) => is_worker_start(
                    r,
                    self.config,
                    p,
                    *spec_,
                    worker_count as nat,
                    job_id,
                    worker_id,
                    env@,
                ),
            },
    {
        let i: usize = match self.project_index(project_id) {
            Ok(i) => i,
            Err(e) => {
                return Err(e);
            },
        };
        let project = &self.projects[i];
        match resolve_worker_callback(&self.config, project, &spec_.callback_overrides, env) {
            Ok(callback) => Ok(
                (
                    callback,
                    place_worker(
                        project.runtime.path.as_str(),
                        &spec_.cwd,
                        &spec_.worktree,
                        &project.config.jobs.defaults,
                        worker_count,
                        job_id,
                        worker_id,
                    ),
                ),
            ),
            Err(e) => Err(e),
        }
    }

    /// Prepares a worker of a job that is still there.
    pub fn prepare_job_worker(&mut self, agent_id: u128, worker: &JobWorkerSpecResolved, ts: u64)
        ensures
            final(self)@ == (match job::position_of(job::agent_ids(old(self)@.agents), agent_id) {
                Some(i) => foreman::set_agent(
                    old(self)@,
                    i,
                    jobs::prepared(old(self)@.agents[i], *worker, ts),
                ),
                None => old(self)@,
            }),
            final(self).config == old(self).config,
            registry::well_formed(old(self)@) ==> registry::well_formed(final(self)@),
    {
        let ghost before = self@;
        proof {
            job::lemma_position_found(job::agent_ids(before.agents), agent_id);
        }
        if let Some(i) = find_agent(&self.agents, agent_id) {
            jobs::prepare_job_worker(&mut self.agents[i], worker, ts);
            proof {
                assert(self@.agents == before.agents.update(i as int, self.agents@[i as int]@));
                registry::lemma_same_agents_stay_well_formed(before, self@);
            }
        }
    }

    /// Adds a job whose workers were made.
    pub fn register_job(&mut self, project_id: u128, job: JobRecord, ts: u64)
        ensures
            final(self)@ == with_new_job(old(self)@, project_id, job@, ts),
            final(self).config == old(self).config,
            registry::well_formed(old(self)@) ==> registry::well_formed(final(self)@),
    {
        self.add_project_workers(project_id, &job.worker_ids, ts);
        self.insert_job(job);
    }

    /// Tells of a job that was made.
    pub fn describe_job(
        &self,
        project_id: u128,
        job_id: u128,
        worker_ids: Vec<u128>,
        labels: TextMap<Vec<String>>,
    ) -> (r: CreateProjectJobsResponse)
        ensures
            r.job_id == job_id,
            r.project_id == project_id,
            r.worker_ids == worker_ids,
            r.worker_count == worker_ids@.len(),
            r.labels == labels,
            r.status@ == (match registry::job_of(self@.jobs, job_id) {
                Some(j) => j.status,
                None => constants::JOB_STATUS_RUNNING@,
            }),
    {
        let status = match find_job(&self.jobs, job_id) {
            Some(i) => self.jobs[i].status.clone(),
            None => constants::JOB_STATUS_RUNNING.to_owned(),
        };
        let worker_count = worker_ids.len();
        CreateProjectJobsResponse { job_id, project_id, status, worker_ids, worker_count, labels }
    }

    /// What is told while a job is waited for: its result once it has ended or the time is up,
    /// and nothing before that.
    pub fn wait_for_job_result(&self, job_id: u128, timed_out: bool, include_workers: bool) -> (r:
        Option<JobWaitResponse>)
        ensures
            match job::position_of(registry::job_ids(self@.jobs), job_id) {
                Some(i) => exists|full: JobResult| #[trigger]
                    job_status::is_wait_answer(r, full, timed_out, include_workers)
                        && job_status::is_job_result(
                        full,
                        self@.jobs[i],
                        self.jobs@[i].worker_labels.items(),
                        self@.agents,
                        self.config.budgets.defaults,
                    ),
                None => if timed_out {
                    r matches Some(w) && job_status::is_unknown_job(w, job_id)
                } else {
                    r is None
                },
            },
    {
        match find_job(&self.jobs, job_id) {
            Some(i) => {
                let result = job_status::get_job_result(
                    &self.jobs[i],
                    &self.agents,
                    &self.config.budgets.defaults,
                );
                job_status::judge_job_wait(result, timed_out, include_workers)
            },
            None => if timed_out {
                Some(job_status::unknown_job(job_id))
            } else {
                None
            },
        }
    }

    /// The project's directory and the commands that remove the worktree of an agent that has
    /// one there.
    pub fn cleanup_agent_worktree_if_any(&self, agent_id: u128, was_merged: bool) -> (r: Option<
        (String, Vec<GitCommand>),
    >)
        ensures
            match job::agent_of(self@.agents, agent_id) {
                Some(a) => match foreman::residual_of(a, self@.projects) {
                    Some(x) => r matches Some(c) && c.0@ == x.project_path
                        && worktree::command_views(c.1@) == worktree::cleanup_commands(
                        x.worktree_path,
                        x.branch_name,
                        was_merged,
                    ),
                    None => r is None,
                },
                None => r is None,
            },
    {
        let i: usize = match find_agent(&self.agents, agent_id) {
            Some(i) => i,
            None => {
                return None;
            },
        };
        let agent = &self.agents[i];
        if let Some(worktree_path) = &agent.worktree_path {
            if let Some(project_id) = agent.project_id {
                if let Some(k) = find_project(&self.projects, project_id) {
                    return Some(
                        (
                            self.projects[k].path.clone(),
                            cleanup_worker_worktree(
                                worktree_path.as_str(),
                                &agent.branch_name,
                                was_merged,
                            ),
                        ),
                    );
                }
            }
        }
        None
    }

    /// Takes note of the worktree of an agent that was removed.
    pub fn forget_worktree(&mut self, agent_id: u128, was_merged: bool, ts: u64)
        ensures
            final(self)@ == (match job::position_of(job::agent_ids(old(self)@.agents), agent_id) {
                Some(i) => foreman::set_agent(
                    old(self)@,
                    i,
                    worktree::after_removal(old(self)@.agents[i], was_merged, ts),
                ),
                None => old(self)@,
            }),
            final(self).config == old(self).config,
            registry::well_formed(old(self)@) ==> registry::well_formed(final(self)@),
    {
        let ghost before = self@;
        proof {
            job::lemma_position_found(job::agent_ids(before.agents), agent_id);
        }
        if let Some(i) = find_agent(&self.agents, agent_id) {
            worktree::forget_worktree(&mut self.agents[i], was_merged, ts);
            proof {
                assert(self@.agents == before.agents.update(i as int, self.agents@[i as int]@));
                registry::lemma_same_agents_stay_well_formed(before, self@);
            }
        }
    }
}

/// A job that was made is found under its identifier, with its workers in the list of its
/// project behind those that were there.
pub proof fn law_new_job_is_found(
    v: registry::ForemanView,
    project_id: u128,
    j: job::JobView,
    ts: u64,
)
    requires
        registry::well_formed(v),
        registry::project_of(v.projects, project_id) is Some,
    ensures
        registry::job_of(with_new_job(v, project_id, j, ts).jobs, j.id) == Some(j),
        ({
            let before = registry::project_of(v.projects, project_id)->0;
            let after = registry::project_of(with_new_job(v, project_id, j, ts).projects, project_id);
            after matches Some(p) && p.worker_ids == before.worker_ids + j.worker_ids
        }),
{
    let w = with_new_job(v, project_id, j, ts);
    job::lemma_position_found(registry::job_ids(v.jobs), j.id);
    job::lemma_position_found(registry::job_ids(w.jobs), j.id);
    job::lemma_position_found(registry::project_ids(v.projects), project_id);
    assert(registry::project_ids(w.projects) == registry::project_ids(v.projects));
    registry::lemma_with_job(v.jobs, j);
}

} // verus!

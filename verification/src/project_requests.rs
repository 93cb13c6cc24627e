//! Requests for projects, answered from the state of the service.
use vstd::prelude::*;

use crate::constants;
use crate::error::ForemanError;
use crate::job;
use crate::models::{
    clone_ids, CallbackOverrides, CompactProjectRequest, CreateProjectResponse, SendAgentInput,
    SpawnAgentResponse, SpawnProjectWorkerResponse,
};
use crate::project;
use crate::project::{ProjectConfig, ProjectRuntimeFiles};
use crate::projects;
use crate::projects::{check_project_callbacks, ProjectRecord, ProjectView};
use crate::registry;
use crate::registry::Foreman;
use crate::resolve::EnvVars;
use crate::text;
use crate::vars;

verus! {

/// A new project.
pub open spec fn fresh_project(
    id: u128,
    path: Seq<char>,
    foreman_agent_id: u128,
    config: ProjectConfig,
    runtime: ProjectRuntimeFiles,
    ts: u64,
) -> ProjectView {
    ProjectView {
        id,
        path,
        name: projects::name_of(config, path),
        status: constants::PROJECT_STATUS_READY@,
        foreman_agent_id: Some(foreman_agent_id),
        worker_ids: Seq::empty(),
        completed_worker_turns: 0,
        config,
        runtime,
        callback_status: vars::nothing_run(),
        created_at: ts,
        updated_at: ts,
    }
}

/// The agents of a project, in the order in which they are closed: its workers, then its foreman.
pub open spec fn members(p: ProjectView) -> Seq<u128> {
    match p.foreman_agent_id {
        Some(id) => p.worker_ids.push(id),
        None => p.worker_ids,
    }
}

/// The agents of a project, in the order in which they are closed.
pub fn project_members(project: &ProjectRecord) -> (r: Vec<u128>)
    ensures
        r@ == members(project@),
{
    let mut out = clone_ids(&project.worker_ids);
    if let Some(id) = project.foreman_agent_id {
        out.push(id);
    }
    out
}

/// Tells of a turn of a project's foreman.
pub fn describe_foreman_turn(project_id: u128, foreman_id: u128, response: SpawnAgentResponse) -> (r:
    SpawnProjectWorkerResponse)
    ensures
        r.id == response.id,
        r.thread_id == response.thread_id,
        r.turn_id == response.turn_id,
        r.status == response.status,
        r.project_id == project_id,
        r.foreman_id == foreman_id,
        r.role@ == constants::AGENT_ROLE_FOREMAN@,
{
    SpawnProjectWorkerResponse {
        id: response.id,
        thread_id: response.thread_id,
        turn_id: response.turn_id,
        status: response.status,
        project_id,
        foreman_id,
        role: constants::AGENT_ROLE_FOREMAN.to_owned(),
    }
}

/// Why a configuration is not taken over by a running project.
pub open spec fn reload_problem(
    service: crate::config::ServiceConfig,
    config: ProjectConfig,
    env: Map<Seq<char>, Option<String>>,
) -> Option<Seq<Seq<char>>> {
    match project::project_problem(config) {
        Some(chain) => Some(chain),
        None => projects::callbacks_problem(service, config, projects::plain_overrides(), env),
    }
}

impl Foreman {
    /// Adds a project whose foreman was started, and tells of it.
    pub fn create_project(
        &mut self,
        id: u128,
        path: String,
        foreman: SpawnAgentResponse,
        config: ProjectConfig,
        runtime: ProjectRuntimeFiles,
        ts: u64,
    ) -> (r: CreateProjectResponse)
        ensures
            final(self)@ == (registry::ForemanView {
                projects: registry::with_project(
                    old(self)@.projects,
                    fresh_project(id, path@, foreman.id, config, runtime, ts),
                ),
                ..old(self)@
            }),
            final(self).config == old(self).config,
            registry::well_formed(old(self)@) ==> registry::well_formed(final(self)@),
            r.project_id == id,
            r.path@ == path@,
            r.foreman_agent_id == Some(foreman.id),
            r.status == foreman.status,
    {
        let shown = path.clone();
        let project = projects::create_project(id, path, foreman.id, config, runtime, ts);
        self.insert_project(project);
        CreateProjectResponse {
            project_id: id,
            path: shown,
            foreman_agent_id: Some(foreman.id),
            status: foreman.status,
        }
    }

    /// The foreman of a project that is to hand over, and what it is told.
    pub fn compact_project(&self, project_id: u128, request: &CompactProjectRequest) -> (r: Result<
        (u128, SendAgentInput),
        ForemanError,
    >)
        ensures
            match registry::project_of(self@.projects, project_id) {
                None => r matches Err(e) && e@ == seq!["project not found"@],
                Some(p) => match p.foreman_agent_id {
                    None => r matches Err(e) && e@ == seq!["project has no foreman"@],
                    Some(id) => r matches Ok(x) && {
                        &&& x.0 == id
                        &&& text::opt_text(x.1.prompt) == Some(
                            projects::handoff_prompt(
                                text::opt_text(p.runtime.handoff),
                                text::opt_text(request.reason),
                                text::opt_text(request.prompt),
                            ),
                        )
                        &&& x.1.callback_profile is None
                        &&& x.1.callback_prompt_prefix is None
                        &&& x.1.callback_args is None
                        &&& x.1.callback_vars is None
                        &&& x.1.callback_events is None
                    },
                },
            },
    {
        match self.project_and_foreman(project_id) {
            Ok((i, id)) => {
                let prompt = projects::compact_project(&self.projects[i].runtime, request);
                Ok(
                    (
                        id,
                        SendAgentInput {
                            prompt: Some(prompt),
                            callback_profile: None,
                            callback_prompt_prefix: None,
                            callback_args: None,
                            callback_vars: None,
                            callback_events: None,
                        },
                    ),
                )
            },
            Err(e) => Err(e),
        }
    }

    /// The foreman of a project, which is told something.
    pub fn steer_project_foreman(&self, project_id: u128) -> (r: Result<u128, ForemanError>)
        ensures
            match registry::project_of(self@.projects, project_id) {
                Some(p) => match p.foreman_agent_id {
                    Some(id) => r matches Ok(x) && x == id,
                    None => r matches Err(e) && e@ == seq!["project not found"@],
                },
                None => r matches Err(e) && e@ == seq!["project not found"@],
            },
    {
        self.send_to_project_foreman(project_id)
    }

    /// Takes over a project's configuration that was read again, if there is the project and the
    /// configuration is in order.
    pub fn reload_project_config(
        &mut self,
        project_id: u128,
        config: ProjectConfig,
        env: &EnvVars,
        ts: u64,
    ) -> (r: Result<(), ForemanError>)
        ensures
            match job::position_of(registry::project_ids(old(self)@.projects), project_id) {
                None => {
                    &&& r matches Err(e) && e@ == seq!["project not found"@]
                    &&& final(self)@ == old(self)@
                },
                Some(i) => match reload_problem(old(self).config, config, env@) {
                    Some(chain) => {
                        &&& r matches Err(e) && e@ == chain
                        &&& final(self)@ == old(self)@
                    },
                    None => r is Ok && final(self)@ == (registry::ForemanView {
                        projects: old(self)@.projects.update(
                            i,
                            projects::reloaded(old(self)@.projects[i], config, ts),
                        ),
                        ..old(self)@
                    }),
                },
            },
            final(self).config == old(self).config,
            registry::well_formed(old(self)@) ==> registry::well_formed(final(self)@),
    {
        proof {
            registry::lemma_identifiers_stay(self@);
        }
        let ghost before = self@;
        proof {
            job::lemma_position_found(registry::project_ids(before.projects), project_id);
        }
        let i: usize = match self.project_index(project_id) {
            Ok(i) => i,
            Err(e) => {
                return Err(e);
            },
        };
        if let Err(e) = config.validate() {
            return Err(e);
        }
        let plain = CallbackOverrides::default();
        assert(plain == projects::plain_overrides());
        if let Err(e) = check_project_callbacks(&self.config, &config, &plain, env) {
            return Err(e);
        }
        projects::reload_project_config(&mut self.projects[i], config, ts);
        assert(self@.projects == before.projects.update(i as int, self.projects@[i as int]@));
        Ok(())
    }
}

/// A new project runs with its foreman and no workers, and none of its callbacks has run.
pub proof fn law_new_projects_have_only_a_foreman(
    id: u128,
    path: Seq<char>,
    foreman_agent_id: u128,
    config: ProjectConfig,
    runtime: ProjectRuntimeFiles,
    ts: u64,
)
    ensures
        ({
            let p = fresh_project(id, path, foreman_agent_id, config, runtime, ts);
            &&& p.id == id && p.path == path && p.status == "running"@
            &&& p.foreman_agent_id == Some(foreman_agent_id)
            &&& p.worker_ids.len() == 0 && p.completed_worker_turns == 0
            &&& p.config == config && p.runtime == runtime
            &&& p.created_at == ts && p.updated_at == ts
            &&& config.name is Some ==> p.name == config.name->0@
            &&& p.callback_status.dom().contains("start"@) && p.callback_status["start"@]
                == "never_run"@
            &&& p.callback_status.dom().contains("worker_aborted"@)
                && p.callback_status["worker_aborted"@] == "never_run"@
            &&& members(p) == seq![foreman_agent_id]
        }),
{
}

/// The members of a project are its workers and its foreman, and no others.
pub proof fn law_members_are_workers_and_foreman(p: ProjectView, id: u128)
    ensures
        members(p).contains(id) <==> p.worker_ids.contains(id) || p.foreman_agent_id == Some(id),
{
    if p.foreman_agent_id is Some {
        let all = p.worker_ids.push(p.foreman_agent_id->0);
        assert(all[all.len() - 1] == p.foreman_agent_id->0);
        if p.worker_ids.contains(id) {
            let i = choose|i: int| 0 <= i < p.worker_ids.len() && p.worker_ids[i] == id;
            assert(all[i] == id);
        }
        if all.contains(id) && p.foreman_agent_id != Some(id) {
            let i = choose|i: int| 0 <= i < all.len() && all[i] == id;
            assert(p.worker_ids[i] == id);
        }
    }
}

/// A project is loaded anew exactly where its configuration is in order and its callbacks are
/// known.
pub proof fn law_only_projects_in_order_are_loaded(
    service: crate::config::ServiceConfig,
    config: ProjectConfig,
    env: Map<Seq<char>, Option<String>>,
)
    ensures
        reload_problem(service, config, env) is None ==> project::project_problem(config) is None,
        project::project_problem(config) is Some ==> reload_problem(service, config, env)
            == project::project_problem(config),
{
}

} // verus!

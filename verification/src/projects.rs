//! Projects: what the service knows of each, and what happens to them.
use vstd::prelude::*;

use crate::agent;
use crate::agent::{AgentRole, WorkerCallback};
use crate::agent_events;
use crate::agent_events::CallbackEventContext;
use crate::callback;
use crate::callback::{dispatch_callback, dispatch_command_callback, Delivery};
use crate::callback::{dispatch_unix_payload, WebhookDelivery};
use crate::config::{CallbackProfile, ServiceConfig};
use crate::constants;
use crate::error::ForemanError;
use crate::events;
use crate::events::events_allowed;
use crate::ids;
use crate::ids::id_text;
use crate::json;
use crate::json::Json;
use crate::json_build::{object1, object2};
use crate::models::{
    clone_ids, clone_vars, CallbackOverrides, CompactProjectRequest, ProjectCallbackStatusResponse,
    ProjectState, SpawnProjectRequest,
};
use crate::payload;
use crate::payload::{build_base_payload, callback_vars};
use crate::paths;
use crate::paths::join_path;
use crate::project::{ProjectConfig, ProjectRuntimeFiles};
use crate::resolve;
use crate::resolve::{
    read_env, resolve_project_bubble_callback, resolve_project_callback_spec,
    resolve_project_lifecycle_callback_spec, EnvVars,
};
use crate::text;
use crate::text::same_text;
use crate::text_map;
use crate::text_map::TextMap;
use crate::turns;
use crate::turns::{callback_timeout_ms, update_completed_turn_counter};
use crate::vars;
use crate::vars::{normalize_project_lifecycle_callback_status, set_var};

verus! {

/// What the service knows of a project.
#[derive(Debug)]
pub struct ProjectRecord {
    pub id: u128,
    pub path: String,
    pub name: String,
    pub status: String,
    pub foreman_agent_id: Option<u128>,
    pub worker_ids: Vec<u128>,
    pub completed_worker_turns: u64,
    pub config: ProjectConfig,
    pub runtime: ProjectRuntimeFiles,
    pub lifecycle_callback_status: TextMap<String>,
    pub created_at: u64,
    pub updated_at: u64,
}

/// What a project's record stands for.
pub struct ProjectView {
    pub id: u128,
    pub path: Seq<char>,
    pub name: Seq<char>,
    pub status: Seq<char>,
    pub foreman_agent_id: Option<u128>,
    pub worker_ids: Seq<u128>,
    pub completed_worker_turns: u64,
    pub config: ProjectConfig,
    pub runtime: ProjectRuntimeFiles,
    pub callback_status: Map<Seq<char>, Seq<char>>,
    pub created_at: u64,
    pub updated_at: u64,
}

impl View for ProjectRecord {
    type V = ProjectView;

    open spec fn view(&self) -> ProjectView {
        ProjectView {
            id: self.id,
            path: self.path@,
            name: self.name@,
            status: self.status@,
            foreman_agent_id: self.foreman_agent_id,
            worker_ids: self.worker_ids@,
            completed_worker_turns: self.completed_worker_turns,
            config: self.config,
            runtime: self.runtime,
            callback_status: vars::values_of(self.lifecycle_callback_status@),
            created_at: self.created_at,
            updated_at: self.updated_at,
        }
    }
}

/// A project of whose callbacks one came to something.
pub open spec fn after_callback(
    p: ProjectView,
    key: Seq<char>,
    status: Seq<char>,
    ts: u64,
) -> ProjectView {
    ProjectView { callback_status: p.callback_status.insert(key, status), updated_at: ts, ..p }
}

/// Takes note of what a callback of a project came to.
pub fn set_project_lifecycle_callback_status(
    project: &mut ProjectRecord,
    lifecycle_key: &str,
    status: &str,
    ts: u64,
)
    ensures
        final(project)@ == after_callback(old(project)@, lifecycle_key@, status@, ts),
{
    set_var(&mut project.lifecycle_callback_status, lifecycle_key, status.to_owned());
    project.updated_at = ts;
}

/// What is done for something that happens to a project, by way of a callback.
pub open spec fn lifecycle_delivery(
    p: ProjectView,
    c: agent_events::ContextView,
    chosen: WorkerCallback,
    config: ServiceConfig,
    env: Map<Seq<char>, Option<String>>,
) -> Result<callback::DeliveryView, Seq<Seq<char>>> {
    callback::delivery(
        c,
        chosen,
        true,
        config.callbacks.profiles@,
        Some(p.config.callbacks.profiles@),
        vars::entries_of(p.config.callbacks.env),
        env,
    )
}

/// What is done for something that happens to a project. A callback that is not configured is
/// noted as such; so is one for which nothing can be done.
pub fn dispatch_project_lifecycle_callback(
    project: &mut ProjectRecord,
    config: &ServiceConfig,
    lifecycle_key: &str,
    overrides: &CallbackOverrides,
    context: &CallbackEventContext,
    env: &EnvVars,
    ts: u64,
) -> (r: Result<Delivery, ForemanError>)
    ensures
        match resolve::lifecycle_resolved(
            *config,
            old(project)@.config.callbacks,
            lifecycle_key@,
            *overrides,
            env@,
        ) {
            Err(chain) => {
                &&& r matches Err(e) && e@ == chain
                &&& final(project)@ == old(project)@
            },
            Ok(agent::CallbackView::Unset) => {
                &&& r matches Ok(Delivery::Nothing)
                &&& final(project)@ == after_callback(
                    old(project)@,
                    lifecycle_key@,
                    constants::PROJECT_CALLBACK_STATUS_DISABLED@,
                    ts,
                )
            },
            Ok(resolved) => exists|chosen: WorkerCallback| #[trigger]
                chosen@ == resolved && {
                    &&& callback::delivers(
                        r,
                        lifecycle_delivery(old(project)@, context@, chosen, *config, env@),
                    )
                    &&& final(project)@ == (if r is Ok {
                        old(project)@
                    } else {
                        after_callback(
                            old(project)@,
                            lifecycle_key@,
                            constants::PROJECT_CALLBACK_STATUS_FAILED@,
                            ts,
                        )
                    })
                },
        },
{
    let chosen = match resolve_project_lifecycle_callback_spec(
        config,
        &project.config.callbacks,
        lifecycle_key,
        overrides,
        env,
    ) {
        Ok(chosen) => chosen,
        Err(e) => {
            return Err(e);
        },
    };
    if let WorkerCallback::Unset = &chosen {
        set_project_lifecycle_callback_status(
            project,
            lifecycle_key,
            constants::PROJECT_CALLBACK_STATUS_DISABLED,
            ts,
        );
        return Ok(Delivery::Nothing);
    }
    let delivery = dispatch_callback(
        context,
        &chosen,
        true,
        config,
        Some(&project.config.callbacks.profiles),
        &project.config.callbacks.env,
        env,
    );
    if delivery.is_err() {
        set_project_lifecycle_callback_status(
            project,
            lifecycle_key,
            constants::PROJECT_CALLBACK_STATUS_FAILED,
            ts,
        );
    }
    delivery
}

/// Takes note of whether what a callback asked for was done.
pub fn finish_project_lifecycle_callback(
    project: &mut ProjectRecord,
    lifecycle_key: &str,
    delivered: bool,
    ts: u64,
)
    ensures
        final(project)@ == after_callback(
            old(project)@,
            lifecycle_key@,
            if delivered {
                constants::PROJECT_CALLBACK_STATUS_SUCCESS@
            } else {
                constants::PROJECT_CALLBACK_STATUS_FAILED@
            },
            ts,
        ),
{
    let status = if delivered {
        constants::PROJECT_CALLBACK_STATUS_SUCCESS
    } else {
        constants::PROJECT_CALLBACK_STATUS_FAILED
    };
    set_project_lifecycle_callback_status(project, lifecycle_key, status, ts);
}

/// What a worker's event is for its project: the name of what happens to it and of its event.
pub open spec fn worker_lifecycle(method: Seq<char>) -> Option<(Seq<char>, Seq<char>)> {
    if method == constants::EVENT_METHOD_TURN_COMPLETED@ {
        Some(
            (
                constants::PROJECT_LIFECYCLE_WORKER_COMPLETED@,
                constants::PROJECT_LIFECYCLE_EVENT_WORKER_COMPLETED@,
            ),
        )
    } else if method == constants::EVENT_METHOD_TURN_ABORTED@ {
        Some(
            (
                constants::PROJECT_LIFECYCLE_WORKER_ABORTED@,
                constants::PROJECT_LIFECYCLE_EVENT_WORKER_ABORTED@,
            ),
        )
    } else {
        None
    }
}

/// What a worker's event is for its project.
#[derive(Debug)]
pub struct WorkerLifecycle {
    pub key: &'static str,
    pub event: &'static str,
    /// Whether the project is to be compacted.
    pub compact: bool,
}

/// Asks for the handoff of a project whose workers have ended enough turns.
pub fn compact_request() -> (r: CompactProjectRequest)
    ensures
        r.prompt is None,
        text::opt_text(r.reason) == Some(constants::PROJECT_COMPACT_SUMMARY_PREFIX@),
{
    CompactProjectRequest {
        prompt: None,
        reason: Some(constants::PROJECT_COMPACT_SUMMARY_PREFIX.to_owned()),
    }
}

/// Counts a turn that a worker of a project has ended. Says what that is for the project.
pub fn execute_project_worker_callback(project: &mut ProjectRecord, method: &str) -> (r: Option<
    WorkerLifecycle,
>)
    ensures
        match worker_lifecycle(method@) {
            None => r is None && final(project)@ == old(project)@,
            Some(names) => {
                let next = turns::next_turn_count(
                    old(project)@.completed_worker_turns,
                    old(project)@.config.policy.compact_after_turns,
                );
                &&& r matches Some(w) && w.key@ == names.0 && w.event@ == names.1 && w.compact
                    == next.1
                &&& final(project)@ == (ProjectView {
                    completed_worker_turns: next.0,
                    ..old(project)@
                })
            },
        },
{
    let completed = same_text(method, constants::EVENT_METHOD_TURN_COMPLETED);
    if !completed && !same_text(method, constants::EVENT_METHOD_TURN_ABORTED) {
        return None;
    }
    let (count, compact) = update_completed_turn_counter(
        project.completed_worker_turns,
        project.config.policy.compact_after_turns,
    );
    project.completed_worker_turns = count;
    if completed {
        Some(
            WorkerLifecycle {
                key: constants::PROJECT_LIFECYCLE_WORKER_COMPLETED,
                event: constants::PROJECT_LIFECYCLE_EVENT_WORKER_COMPLETED,
                compact,
            },
        )
    } else {
        Some(
            WorkerLifecycle {
                key: constants::PROJECT_LIFECYCLE_WORKER_ABORTED,
                event: constants::PROJECT_LIFECYCLE_EVENT_WORKER_ABORTED,
                compact,
            },
        )
    }
}

/// The variables of an event of a project.
pub open spec fn project_vars(p: ProjectView, c: agent_events::ContextView) -> Seq<
    (Seq<char>, Seq<char>),
> {
    let v = payload::event_vars(c, Seq::empty());
    let v = text_map::put(v, constants::PROJECT_VAR_ID@, ids::uuid_text(p.id));
    let v = text_map::put(v, constants::PROJECT_VAR_PATH@, p.path);
    let v = text_map::put(v, constants::PROJECT_VAR_NAME@, p.name);
    let v = text_map::put(v, constants::PROJECT_VAR_STATUS@, p.status);
    payload::put_opt(
        v,
        constants::PROJECT_VAR_FOREMAN_ID@,
        ids::opt_uuid_text(p.foreman_agent_id),
    )
}

/// The variables of an event of a project.
pub fn project_event_vars(project: &ProjectRecord, context: &CallbackEventContext) -> (r: TextMap<
    String,
>)
    ensures
        vars::entries_of(r) == project_vars(project@, context@),
{
    let none: TextMap<String> = TextMap::new();
    assert(vars::entries_of(none) == Seq::<(Seq<char>, Seq<char>)>::empty());
    let mut vars = callback_vars(context, none);
    set_var(&mut vars, constants::PROJECT_VAR_ID, id_text(project.id));
    set_var(&mut vars, constants::PROJECT_VAR_PATH, project.path.clone());
    set_var(&mut vars, constants::PROJECT_VAR_NAME, project.name.clone());
    set_var(&mut vars, constants::PROJECT_VAR_STATUS, project.status.clone());
    if let Some(foreman_id) = project.foreman_agent_id {
        set_var(&mut vars, constants::PROJECT_VAR_FOREMAN_ID, id_text(foreman_id));
    }
    vars
}

/// What is posted of what a project passes up.
pub open spec fn bubble_webhook(
    p: ProjectView,
    c: agent_events::ContextView,
    url: Seq<char>,
    secret: Option<Seq<char>>,
    timeout_ms: Option<u64>,
    whose: Seq<char>,
) -> callback::DeliveryView {
    callback::DeliveryView::Webhook(
        callback::WebhookView {
            url,
            secret,
            timeout_ms: turns::time_limit(timeout_ms),
            payload: payload::base_payload(c, Some(project_vars(p, c))),
            operation: "project bubble callback request"@,
            failed: "project bubble callback to '"@ + url + "' failed"@ + whose,
            rejected: "project bubble callback to '"@ + url + "' returned non-2xx"@ + whose,
        },
    )
}

/// What a project passes up, by way of a callback. A profile is one of the service.
pub open spec fn bubble_delivery(
    p: ProjectView,
    c: agent_events::ContextView,
    chosen: WorkerCallback,
    service_profiles: Map<Seq<char>, CallbackProfile>,
    env: Map<Seq<char>, Option<String>>,
) -> Result<callback::DeliveryView, Seq<Seq<char>>> {
    match chosen {
        WorkerCallback::Unset => Ok(callback::DeliveryView::Nothing),
        WorkerCallback::Webhook(w) => Ok(
            bubble_webhook(
                p,
                c,
                w.url@,
                text::opt_text(w.secret),
                w.timeout_ms,
                " for project "@ + ids::uuid_text(p.id),
            ),
        ),
        WorkerCallback::UnixSocket(u) => Ok(
            callback::socket_delivery(c, u.socket@, u.timeout_ms, project_vars(p, c)),
        ),
        WorkerCallback::Profile(i) => if !service_profiles.dom().contains(i.profile@) {
            Err(
                seq![
                    callback::quoting(
                        "project bubble callback profile '"@,
                        i.profile@,
                        "' is not configured"@,
                    ),
                ],
            )
        } else {
            match service_profiles[i.profile@] {
                CallbackProfile::Command(profile) => callback::command_delivery(
                    c,
                    callback::invocation_view(i),
                    profile,
                    vars::entries_of(p.config.callbacks.env),
                    env,
                ),
                CallbackProfile::Webhook(profile) => Ok(
                    bubble_webhook(
                        p,
                        c,
                        profile.url@,
                        resolve::env_value(env, text::opt_text(profile.secret_env)),
                        profile.timeout_ms,
                        ""@,
                    ),
                ),
                CallbackProfile::UnixSocket(profile) => Ok(
                    callback::socket_delivery(
                        c,
                        profile.socket@,
                        profile.timeout_ms,
                        project_vars(p, c),
                    ),
                ),
            }
        },
    }
}

fn post_bubble(
    project: &ProjectRecord,
    context: &CallbackEventContext,
    url: &String,
    secret: Option<String>,
    timeout_ms: Option<u64>,
    whose: &str,
) -> (r: Delivery)
    ensures
        r@ == bubble_webhook(
            project@,
            context@,
            url@,
            text::opt_text(secret),
            timeout_ms,
            whose@,
        ),
{
    let vars = project_event_vars(project, context);
    let mut failed = "project bubble callback to '".to_owned();
    failed.append(url.as_str());
    failed.append("' failed");
    failed.append(whose);
    let mut rejected = "project bubble callback to '".to_owned();
    rejected.append(url.as_str());
    rejected.append("' returned non-2xx");
    rejected.append(whose);
    Delivery::Webhook(
        WebhookDelivery {
            url: url.clone(),
            secret,
            timeout_ms: callback_timeout_ms(timeout_ms),
            payload: build_base_payload(context, Some(&vars)),
            operation: "project bubble callback request".to_owned(),
            failed,
            rejected,
        },
    )
}

/// What a project passes up, by way of a callback.
pub fn dispatch_project_bubble_callback(
    project: &ProjectRecord,
    context: &CallbackEventContext,
    chosen: &WorkerCallback,
    config: &ServiceConfig,
    env: &EnvVars,
) -> (r: Result<Delivery, ForemanError>)
    ensures
        callback::delivers(
            r,
            bubble_delivery(project@, context@, *chosen, config.callbacks.profiles@, env@),
        ),
{
    match chosen {
        WorkerCallback::Unset => Ok(Delivery::Nothing),
        WorkerCallback::Webhook(w) => {
            let mut whose = " for project ".to_owned();
            whose.append(id_text(project.id).as_str());
            Ok(
                post_bubble(
                    project,
                    context,
                    &w.url,
                    w.secret.clone(),
                    w.timeout_ms,
                    whose.as_str(),
                ),
            )
        },
        WorkerCallback::UnixSocket(u) => {
            let vars = project_event_vars(project, context);
            Ok(dispatch_unix_payload(context, &u.socket, u.timeout_ms, &vars))
        },
        WorkerCallback::Profile(i) => match config.get_callback_profile(i.profile.as_str()) {
            None => {
                let mut message = "project bubble callback profile '".to_owned();
                message.append(i.profile.as_str());
                message.append("' is not configured");
                Err(ForemanError::new(message))
            },
            Some(CallbackProfile::Command(profile)) => dispatch_command_callback(
                context,
                i,
                profile,
                &project.config.callbacks.env,
                env,
            ),
            Some(CallbackProfile::Webhook(profile)) => Ok(
                post_bubble(
                    project,
                    context,
                    &profile.url,
                    read_env(env, &profile.secret_env),
                    profile.timeout_ms,
                    "",
                ),
            ),
            Some(CallbackProfile::UnixSocket(profile)) => {
                let vars = project_event_vars(project, context);
                Ok(dispatch_unix_payload(context, &profile.socket, profile.timeout_ms, &vars))
            },
        },
    }
}

/// Whether a project passes an event up: its callback's list decides, else that of its policy.
pub open spec fn passes_up(p: ProjectView, method: Seq<char>) -> bool {
    events::allowed(
        method,
        text::opt_texts(p.config.callbacks.bubble_up.callback_events),
        text::opt_texts(p.config.policy.bubble_up_events),
    )
}

/// What a project passes up of an event, where its callback is configured and takes the event.
pub fn bubble_up(
    project: &ProjectRecord,
    context: &CallbackEventContext,
    config: &ServiceConfig,
    env: &EnvVars,
) -> (r: Result<Delivery, ForemanError>)
    ensures
        match resolve::project_resolved(
            *config,
            project@.config.callbacks.bubble_up,
            project@.config.callbacks.profiles@,
            plain_overrides(),
            false,
            env@,
        ) {
            Err(_) => r matches Ok(Delivery::Nothing),
            Ok(resolved) => if !passes_up(project@, context@.method) {
                r matches Ok(Delivery::Nothing)
            } else {
                exists|chosen: WorkerCallback| #[trigger]
                    chosen@ == resolved && (match bubble_delivery(
                        project@,
                        context@,
                        chosen,
                        config.callbacks.profiles@,
                        env@,
                    ) {
                        Ok(d) => r matches Ok(delivery) && delivery@ == d,
                        Err(chain) => r matches Err(e) && e@ == seq![
                            "project bubble callback failed"@,
                        ] + chain,
                    })
            },
        },
{
    let overrides = CallbackOverrides::default();
    assert(overrides == plain_overrides());
    let chosen = match resolve_project_bubble_callback(
        config,
        &project.config.callbacks,
        &overrides,
        env,
    ) {
        Ok(chosen) => chosen,
        Err(_) => {
            return Ok(Delivery::Nothing);
        },
    };
    if !events_allowed(
        context.method.as_str(),
        project.config.callbacks.bubble_up.callback_events.as_ref(),
        project.config.policy.bubble_up_events.as_ref(),
    ) {
        return Ok(Delivery::Nothing);
    }
    match dispatch_project_bubble_callback(project, context, &chosen, config, env) {
        Ok(delivery) => Ok(delivery),
        Err(e) => Err(e.context("project bubble callback failed".to_owned())),
    }
}

/// What a request asks for that says nothing of callbacks.
pub open spec fn plain_overrides() -> CallbackOverrides {
    CallbackOverrides {
        callback_profile: None,
        callback_prompt_prefix: None,
        callback_args: None,
        callback_vars: None,
        callback_events: None,
    }
}

/// Whether a state is that of a project.
pub open spec fn is_project_state(s: ProjectState, p: ProjectView) -> bool {
    &&& s.id == p.id
    &&& s.path@ == p.path
    &&& s.name@ == p.name
    &&& s.status@ == p.status
    &&& s.foreman_agent_id == p.foreman_agent_id
    &&& s.worker_ids@ == p.worker_ids
    &&& s.worker_count == p.worker_ids.len()
    &&& s.created_at == p.created_at
    &&& s.updated_at == p.updated_at
}

/// The state of a project.
pub fn get_project(project: &ProjectRecord) -> (r: ProjectState)
    ensures
        is_project_state(r, project@),
{
    ProjectState {
        id: project.id,
        path: project.path.clone(),
        name: project.name.clone(),
        status: project.status.clone(),
        foreman_agent_id: project.foreman_agent_id,
        worker_ids: clone_ids(&project.worker_ids),
        worker_count: project.worker_ids.len(),
        created_at: project.created_at,
        updated_at: project.updated_at,
    }
}

/// What a project's callbacks came to: of each whether it ran, and with what outcome.
pub fn get_project_callback_status(project: &ProjectRecord) -> (r: ProjectCallbackStatusResponse)
    ensures
        r.project_id == project@.id,
        vars::values_of(r.callbacks@) == vars::nothing_run().union_prefer_right(
            project@.callback_status,
        ),
{
    ProjectCallbackStatusResponse {
        project_id: project.id,
        callbacks: normalize_project_lifecycle_callback_status(
            clone_vars(&project.lifecycle_callback_status),
        ),
    }
}

/// What is wrong with the callbacks that are configured for a project.
pub open spec fn callbacks_problem(
    config: ServiceConfig,
    project: ProjectConfig,
    overrides: CallbackOverrides,
    env: Map<Seq<char>, Option<String>>,
) -> Option<Seq<Seq<char>>> {
    let profiles = project.callbacks.profiles@;
    match resolve::project_resolved(
        config,
        project.callbacks.foreman,
        profiles,
        overrides,
        false,
        env,
    ) {
        Err(chain) => Some(seq!["invalid foreman callback config"@] + chain),
        Ok(_) => match resolve::project_resolved(
            config,
            project.callbacks.worker,
            profiles,
            plain_overrides(),
            false,
            env,
        ) {
            Err(chain) => Some(seq!["invalid worker callback config"@] + chain),
            Ok(_) => match resolve::project_resolved(
                config,
                project.callbacks.bubble_up,
                profiles,
                plain_overrides(),
                false,
                env,
            ) {
                Err(chain) => Some(seq!["invalid bubble-up callback config"@] + chain),
                Ok(_) => None,
            },
        },
    }
}

/// Checks the callbacks that are configured for a project. Gives that of its foreman.
pub fn check_project_callbacks(
    config: &ServiceConfig,
    project: &ProjectConfig,
    overrides: &CallbackOverrides,
    env: &EnvVars,
) -> (r: Result<WorkerCallback, ForemanError>)
    ensures
        match callbacks_problem(*config, *project, *overrides, env@) {
            Some(chain) => r matches Err(e) && e@ == chain,
            None => r matches Ok(c) && resolve::project_resolved(
                *config,
                project.callbacks.foreman,
                project.callbacks.profiles@,
                *overrides,
                false,
                env@,
            ) == Ok::<agent::CallbackView, Seq<Seq<char>>>(c@),
        },
{
    let plain = CallbackOverrides::default();
    assert(plain == plain_overrides());
    let profiles = &project.callbacks.profiles;
    let foreman = match resolve_project_callback_spec(
        config,
        &project.callbacks.foreman,
        profiles,
        overrides,
        false,
        env,
    ) {
        Ok(c) => c,
        Err(e) => {
            return Err(e.context("invalid foreman callback config".to_owned()));
        },
    };
    if let Err(e) = resolve_project_callback_spec(
        config,
        &project.callbacks.worker,
        profiles,
        &plain,
        false,
        env,
    ) {
        return Err(e.context("invalid worker callback config".to_owned()));
    }
    if let Err(e) = resolve_project_callback_spec(
        config,
        &project.callbacks.bubble_up,
        profiles,
        &plain,
        false,
        env,
    ) {
        return Err(e.context("invalid bubble-up callback config".to_owned()));
    }
    Ok(foreman)
}

/// Where a project is: the path of a request, taken from the directory of the request.
pub open spec fn project_path(path: Seq<char>, cwd: Option<Seq<char>>) -> Seq<char> {
    match cwd {
        Some(base) => paths::below(base, path),
        None => path,
    }
}

/// Where a project is.
pub fn resolve_project_path(request: &SpawnProjectRequest) -> (r: String)
    ensures
        r@ == project_path(request.path@, text::opt_text(request.cwd)),
{
    match &request.cwd {
        Some(cwd) => join_path(cwd.as_str(), request.path.as_str()),
        None => request.path.clone(),
    }
}

/// What a foreman is told first.
pub open spec fn first_prompt(runtime: ProjectRuntimeFiles, start_prompt: Option<Seq<char>>) -> Seq<
    char,
> {
    let base = runtime.foreman_prompt@ + "\n\n"@ + constants::PROJECT_HOMEDOWN_TEXT@
        + constants::PROJECT_RUNBOOK_LABEL@ + runtime.runbook@;
    match start_prompt {
        Some(p) => base + "\n\nSTARTUP\n"@ + p + "\n"@,
        None => base + "\n"@,
    }
}

/// What a foreman is told first: its prompt, the runbook and what the request adds.
pub fn initial_prompt(runtime: &ProjectRuntimeFiles, start_prompt: &Option<String>) -> (r: String)
    ensures
        r@ == first_prompt(*runtime, text::opt_text(*start_prompt)),
{
    let mut prompt = runtime.foreman_prompt.clone();
    prompt.append("\n\n");
    prompt.append(constants::PROJECT_HOMEDOWN_TEXT);
    prompt.append(constants::PROJECT_RUNBOOK_LABEL);
    prompt.append(runtime.runbook.as_str());
    if let Some(start) = start_prompt {
        prompt.append("\n\nSTARTUP\n");
        prompt.append(start.as_str());
    }
    prompt.append("\n");
    prompt
}

/// What a worker is told first.
pub open spec fn task_prompt(worker_prompt: Seq<char>, task: Seq<char>) -> Seq<char> {
    worker_prompt + "\n\n"@ + constants::PROJECT_TASK_LABEL@ + task + "\n"@
}

/// What a worker is told first: its prompt and the task.
pub fn worker_task_prompt(runtime: &ProjectRuntimeFiles, task: &str) -> (r: String)
    ensures
        r@ == task_prompt(runtime.worker_prompt@, task@),
{
    let mut prompt = runtime.worker_prompt.clone();
    prompt.append("\n\n");
    prompt.append(constants::PROJECT_TASK_LABEL);
    prompt.append(task);
    prompt.append("\n");
    prompt
}

/// What a foreman is told that is to hand over.
pub open spec fn handoff_prompt(
    handoff: Option<Seq<char>>,
    reason: Option<Seq<char>>,
    extra: Option<Seq<char>>,
) -> Seq<char> {
    let base = match handoff {
        Some(h) => h,
        None => constants::PROJECT_LIFECYCLE_COMPACT_PROMPT@,
    };
    let with_reason = match reason {
        Some(r) => base + "\n\n"@ + constants::PROJECT_LIFECYCLE_COMPACT_PROMPT_PREFIX@ + " "@ + r
            + "\n"@,
        None => base,
    };
    match extra {
        Some(p) => with_reason + "\n\n"@ + constants::PROJECT_LIFECYCLE_PROMPT_PREFIX@ + p + "\n"@,
        None => with_reason,
    }
}

/// What a foreman is told that is to hand over.
pub fn compact_project(runtime: &ProjectRuntimeFiles, request: &CompactProjectRequest) -> (r: String)
    ensures
        r@ == handoff_prompt(
            text::opt_text(runtime.handoff),
            text::opt_text(request.reason),
            text::opt_text(request.prompt),
        ),
{
    let mut prompt = match &runtime.handoff {
        Some(h) => h.clone(),
        None => constants::PROJECT_LIFECYCLE_COMPACT_PROMPT.to_owned(),
    };
    if let Some(reason) = &request.reason {
        prompt.append("\n\n");
        prompt.append(constants::PROJECT_LIFECYCLE_COMPACT_PROMPT_PREFIX);
        prompt.append(" ");
        prompt.append(reason.as_str());
        prompt.append("\n");
    }
    if let Some(extra) = &request.prompt {
        prompt.append("\n\n");
        prompt.append(constants::PROJECT_LIFECYCLE_PROMPT_PREFIX);
        prompt.append(extra.as_str());
        prompt.append("\n");
    }
    prompt
}

/// The name of a project: the one that is configured, else that of its directory.
pub open spec fn name_of(config: ProjectConfig, path: Seq<char>) -> Seq<char> {
    match config.name {
        Some(n) => n@,
        None => match paths::last_part(path) {
            Some(n) => n,
            None => constants::DEFAULT_PROJECT_NAME@,
        },
    }
}

/// The name of a project.
pub fn project_name(config: &ProjectConfig, path: &str) -> (r: String)
    ensures
        r@ == name_of(*config, path@),
{
    match &config.name {
        Some(n) => n.clone(),
        None => match paths::file_name(path) {
            Some(n) => n,
            None => constants::DEFAULT_PROJECT_NAME.to_owned(),
        },
    }
}

/// A new project.
pub fn create_project(
    id: u128,
    path: String,
    foreman_agent_id: u128,
    config: ProjectConfig,
    runtime: ProjectRuntimeFiles,
    ts: u64,
) -> (r: ProjectRecord)
    ensures
        r@ == (ProjectView {
            id,
            path: path@,
            name: name_of(config, path@),
            status: constants::PROJECT_STATUS_READY@,
            foreman_agent_id: Some(foreman_agent_id),
            worker_ids: Seq::empty(),
            completed_worker_turns: 0,
            config,
            runtime,
            callback_status: vars::nothing_run(),
            created_at: ts,
            updated_at: ts,
        }),
{
    let name = project_name(&config, path.as_str());
    ProjectRecord {
        id,
        path,
        name,
        status: constants::PROJECT_STATUS_READY.to_owned(),
        foreman_agent_id: Some(foreman_agent_id),
        worker_ids: Vec::new(),
        completed_worker_turns: 0,
        config,
        runtime,
        lifecycle_callback_status: vars::default_project_lifecycle_callback_status(),
        created_at: ts,
        updated_at: ts,
    }
}

/// A project whose configuration was read again: its callbacks, its checks, its policy and how
/// many turns its workers take. Its files, and how its jobs are merged, stay.
pub open spec fn reloaded(p: ProjectView, config: ProjectConfig, ts: u64) -> ProjectView {
    ProjectView {
        config: ProjectConfig {
            callbacks: config.callbacks,
            validation: config.validation,
            policy: config.policy,
            jobs: crate::project::ProjectJobsConfig {
                defaults: crate::project::JobDefaultsConfig {
                    min_turns: config.jobs.defaults.min_turns,
                    strategy: config.jobs.defaults.strategy,
                    ..p.config.jobs.defaults
                },
            },
            ..p.config
        },
        updated_at: ts,
        ..p
    }
}

/// Takes over a configuration that was read again.
pub fn reload_project_config(project: &mut ProjectRecord, config: ProjectConfig, ts: u64)
    ensures
        final(project)@ == reloaded(old(project)@, config, ts),
{
    project.config.callbacks = config.callbacks;
    project.config.validation = config.validation;
    project.config.policy = config.policy;
    project.config.jobs.defaults.min_turns = config.jobs.defaults.min_turns;
    project.config.jobs.defaults.strategy = config.jobs.defaults.strategy;
    project.updated_at = ts;
}

/// What is told of something that happens to a project.
pub open spec fn lifecycle_context(
    project_id: u128,
    agent_id: u128,
    turn_id: Option<Seq<char>>,
    role: AgentRole,
    method: Seq<char>,
    params: json::JsonView,
    event_id: u128,
    ts: u64,
) -> agent_events::ContextView {
    agent_events::ContextView {
        agent_id,
        thread_id: ""@,
        turn_id,
        role,
        project_id: Some(project_id),
        foreman_id: Some(agent_id),
        job_id: None,
        method,
        ts,
        params,
        event_id,
        result_snapshot: None,
        callback: agent::CallbackView::Unset,
    }
}

fn make_lifecycle_context(
    project_id: u128,
    agent_id: u128,
    turn_id: Option<String>,
    role: AgentRole,
    method: &str,
    params: Json,
    event_id: u128,
    ts: u64,
) -> (r: CallbackEventContext)
    ensures
        r@ == lifecycle_context(
            project_id,
            agent_id,
            text::opt_text(turn_id),
            role,
            method@,
            params@,
            event_id,
            ts,
        ),
{
    CallbackEventContext {
        agent_id,
        thread_id: "".to_owned(),
        turn_id,
        role,
        project_id: Some(project_id),
        foreman_id: Some(agent_id),
        job_id: None,
        method: method.to_owned(),
        ts,
        params,
        event_id,
        result_snapshot: None,
        callback: WorkerCallback::Unset,
    }
}

/// The identity of a project, as a value.
pub open spec fn project_identity(id: u128, name: Seq<char>) -> json::JsonView {
    json::JsonView::Object(
        seq![
            (constants::PROJECT_VAR_ID@, json::JsonView::Text(ids::uuid_text(id))),
            (constants::PROJECT_VAR_NAME@, json::JsonView::Text(name)),
        ],
    )
}

/// What is told of a project that has started.
pub fn start_context(project: &ProjectRecord, foreman_id: u128, event_id: u128, ts: u64) -> (r:
    CallbackEventContext)
    ensures
        r@ == lifecycle_context(
            project@.id,
            foreman_id,
            None,
            AgentRole::Foreman,
            constants::PROJECT_LIFECYCLE_EVENT_START@,
            project_identity(project@.id, project@.name),
            event_id,
            ts,
        ),
{
    let params = object2(
        constants::PROJECT_VAR_ID,
        Json::Text(id_text(project.id)),
        constants::PROJECT_VAR_NAME,
        Json::Text(project.name.clone()),
    );
    make_lifecycle_context(
        project.id,
        foreman_id,
        None,
        AgentRole::Foreman,
        constants::PROJECT_LIFECYCLE_EVENT_START,
        params,
        event_id,
        ts,
    )
}

/// What is told of a project that is compacted.
pub fn compact_context(
    project_id: u128,
    foreman_id: u128,
    turn_id: Option<String>,
    reason: &Option<String>,
    event_id: u128,
    ts: u64,
) -> (r: CallbackEventContext)
    ensures
        r@ == lifecycle_context(
            project_id,
            foreman_id,
            text::opt_text(turn_id),
            AgentRole::Foreman,
            constants::PROJECT_LIFECYCLE_EVENT_COMPACT@,
            json::JsonView::Object(
                seq![
                    (
                        constants::CALLBACK_VAR_REASON@,
                        json::JsonView::Text(
                            match *reason {
                                Some(t) => t@,
                                None => constants::PROJECT_LIFECYCLE_COMPACTION_REASON@,
                            },
                        ),
                    ),
                ],
            ),
            event_id,
            ts,
        ),
{
    let told = match reason {
        Some(t) => t.clone(),
        None => constants::PROJECT_LIFECYCLE_COMPACTION_REASON.to_owned(),
    };
    make_lifecycle_context(
        project_id,
        foreman_id,
        turn_id,
        AgentRole::Foreman,
        constants::PROJECT_LIFECYCLE_EVENT_COMPACT,
        object1(constants::CALLBACK_VAR_REASON, Json::Text(told)),
        event_id,
        ts,
    )
}

/// What is told of a project that is closed. One without a foreman is spoken for by a stand-in.
pub fn stop_context(project: &ProjectRecord, stand_in: u128, event_id: u128, ts: u64) -> (r:
    CallbackEventContext)
    ensures
        r@ == lifecycle_context(
            project@.id,
            match project@.foreman_agent_id {
                Some(id) => id,
                None => stand_in,
            },
            None,
            if project@.foreman_agent_id is Some {
                AgentRole::Foreman
            } else {
                AgentRole::Standalone
            },
            constants::PROJECT_LIFECYCLE_EVENT_STOP@,
            project_identity(project@.id, project@.name),
            event_id,
            ts,
        ),
{
    let params = object2(
        constants::PROJECT_VAR_ID,
        Json::Text(id_text(project.id)),
        constants::PROJECT_VAR_NAME,
        Json::Text(project.name.clone()),
    );
    let speaker = match project.foreman_agent_id {
        Some(id) => id,
        None => stand_in,
    };
    let role = if project.foreman_agent_id.is_some() {
        AgentRole::Foreman
    } else {
        AgentRole::Standalone
    };
    make_lifecycle_context(
        project.id,
        speaker,
        None,
        role,
        constants::PROJECT_LIFECYCLE_EVENT_STOP,
        params,
        event_id,
        ts,
    )
}

/// Whatever a callback of a project comes to, the project goes on: only the outcome under the name
/// of what happened and the time of its last change are other than before.
pub proof fn law_callback_outcome_changes_only_its_record(
    p: ProjectView,
    key: Seq<char>,
    status: Seq<char>,
    ts: u64,
)
    ensures
        ({
            let q = after_callback(p, key, status, ts);
            &&& q == (ProjectView {
                callback_status: q.callback_status,
                updated_at: q.updated_at,
                ..p
            })
            &&& q.callback_status.dom().contains(key) && q.callback_status[key] == status
            &&& forall|k: Seq<char>|
                k != key ==> (#[trigger] q.callback_status.dom().contains(k)
                    <==> p.callback_status.dom().contains(k)) && q.callback_status[k]
                    == p.callback_status[k]
        }),
{
}

/// Reading a project's configuration again leaves alone who works for the project, what its
/// files say, how its jobs are merged and where they start.
pub proof fn law_reload_keeps_the_running_project(p: ProjectView, config: ProjectConfig, ts: u64)
    ensures
        reloaded(p, config, ts).id == p.id,
        reloaded(p, config, ts).path == p.path,
        reloaded(p, config, ts).runtime == p.runtime,
        reloaded(p, config, ts).worker_ids == p.worker_ids,
        reloaded(p, config, ts).foreman_agent_id == p.foreman_agent_id,
        reloaded(p, config, ts).config.prompts == p.config.prompts,
        reloaded(p, config, ts).config.jobs.defaults.merge_strategy
            == p.config.jobs.defaults.merge_strategy,
        reloaded(p, config, ts).config.jobs.defaults.base_branch
            == p.config.jobs.defaults.base_branch,
        reloaded(p, config, ts).config.jobs.defaults.worktree_mode
            == p.config.jobs.defaults.worktree_mode,
        reloaded(p, config, ts).config.callbacks == config.callbacks,
        reloaded(p, config, ts).config.policy == config.policy,
        reloaded(p, config, ts).config.validation == config.validation,
{
}

/// Only a turn of a worker that ended is a step in the life of its project.
pub proof fn law_ended_turns_are_steps(method: Seq<char>)
    ensures
        worker_lifecycle("turn/completed"@) == Some(
            ("worker_completed"@, "project/lifecycle/worker/completed"@),
        ),
        worker_lifecycle("turn/aborted"@) == Some(
            ("worker_aborted"@, "project/lifecycle/worker/aborted"@),
        ),
        method != "turn/completed"@ && method != "turn/aborted"@ ==> worker_lifecycle(method)
            is None,
{
    reveal_strlit("turn/completed");
    reveal_strlit("turn/aborted");
    assert("turn/completed"@.len() == 14 && "turn/aborted"@.len() == 12);
}

/// A foreman is told its prompt and the runbook and, where there is one, how to start; a worker is
/// told its prompt and its task, each in this order.
pub proof fn law_prompts_hold_what_is_to_be_told(
    runtime: ProjectRuntimeFiles,
    start: Seq<char>,
    worker_prompt: Seq<char>,
    task: Seq<char>,
)
    ensures
        text::begins(first_prompt(runtime, None), runtime.foreman_prompt@),
        text::begins(first_prompt(runtime, Some(start)), runtime.foreman_prompt@),
        text::ends(first_prompt(runtime, None), "RUNBOOK\n"@ + runtime.runbook@ + "\n"@),
        text::ends(first_prompt(runtime, Some(start)), "STARTUP\n"@ + start + "\n"@),
        text::has_text(first_prompt(runtime, Some(start)), runtime.runbook@),
        text::begins(task_prompt(worker_prompt, task), worker_prompt),
        text::ends(task_prompt(worker_prompt, task), "TASK\n"@ + task + "\n"@),
{
    let p = first_prompt(runtime, None);
    let q = first_prompt(runtime, Some(start));
    let head = runtime.foreman_prompt@;
    assert(p.subrange(0, head.len() as int) == head);
    assert(text::occurs_at(p, head, 0));
    assert(q.subrange(0, head.len() as int) == head);
    assert(text::occurs_at(q, head, 0));
    let end = "RUNBOOK\n"@ + runtime.runbook@ + "\n"@;
    let n = p.len() - end.len();
    assert(p.subrange(n as int, p.len() as int) == end);
    assert(text::occurs_at(p, end, n as int));
    reveal_strlit("\n\nSTARTUP\n");
    reveal_strlit("\n\n");
    reveal_strlit("STARTUP\n");
    assert("\n\nSTARTUP\n"@ == "\n\n"@ + "STARTUP\n"@);
    let last = "STARTUP\n"@ + start + "\n"@;
    let m = q.len() - last.len();
    assert(q.subrange(m as int, q.len() as int) == last);
    assert(text::occurs_at(q, last, m as int));
    let k = (head + "\n\n"@ + constants::PROJECT_HOMEDOWN_TEXT@ + constants::PROJECT_RUNBOOK_LABEL@).len();
    assert(q.subrange(k as int, (k + runtime.runbook@.len()) as int) == runtime.runbook@);
    assert(text::occurs_at(q, runtime.runbook@, k as int));
    let t = task_prompt(worker_prompt, task);
    assert(t.subrange(0, worker_prompt.len() as int) == worker_prompt);
    assert(text::occurs_at(t, worker_prompt, 0));
    let tail = "TASK\n"@ + task + "\n"@;
    let o = t.len() - tail.len();
    assert(t.subrange(o as int, t.len() as int) == tail);
    assert(text::occurs_at(t, tail, o as int));
}

/// A handoff is asked for in the words of the project where it has any, followed by the reason and
/// by what else is to be said, as far as they are given.
pub proof fn law_handoffs_give_their_reason(
    handoff: Option<Seq<char>>,
    reason: Seq<char>,
    extra: Seq<char>,
)
    ensures
        handoff is Some ==> handoff_prompt(handoff, None, None) == handoff->0 && text::begins(
            handoff_prompt(handoff, Some(reason), Some(extra)),
            handoff->0,
        ),
        text::ends(handoff_prompt(handoff, Some(reason), None), "REASON: "@ + reason + "\n"@),
        text::ends(handoff_prompt(handoff, Some(reason), Some(extra)), "PROMPT:"@ + extra + "\n"@),
        text::begins(
            handoff_prompt(handoff, Some(reason), Some(extra)),
            handoff_prompt(handoff, Some(reason), None),
        ),
{
    reveal_strlit("REASON:");
    reveal_strlit(" ");
    reveal_strlit("REASON: ");
    assert("REASON:"@ + " "@ == "REASON: "@);
    let p = handoff_prompt(handoff, Some(reason), None);
    let q = handoff_prompt(handoff, Some(reason), Some(extra));
    let base = match handoff {
        Some(h) => h,
        None => constants::PROJECT_LIFECYCLE_COMPACT_PROMPT@,
    };
    assert(q.subrange(0, base.len() as int) == base);
    assert(text::occurs_at(q, base, 0));
    assert(q.subrange(0, p.len() as int) == p);
    assert(text::occurs_at(q, p, 0));
    let end = "REASON: "@ + reason + "\n"@;
    let n = p.len() - end.len();
    assert(p.subrange(n as int, p.len() as int) == end);
    assert(text::occurs_at(p, end, n as int));
    let last = "PROMPT:"@ + extra + "\n"@;
    let m = q.len() - last.len();
    assert(q.subrange(m as int, q.len() as int) == last);
    assert(text::occurs_at(q, last, m as int));
}

/// A project is called what its configuration says, and what its state shows is its own.
pub proof fn law_projects_are_shown_as_they_are(
    config: ProjectConfig,
    path: Seq<char>,
    s: ProjectState,
    p: ProjectView,
)
    ensures
        config.name is Some ==> name_of(config, path) == config.name->0@,
        is_project_state(s, p) ==> s.id == p.id && s.name@ == p.name && s.path@ == p.path
            && s.status@ == p.status && s.worker_count == p.worker_ids.len() && s.foreman_agent_id
            == p.foreman_agent_id && s.worker_ids@ == p.worker_ids,
        project_path(path, None) == path,
{
}

/// A step in the life of a project is told as an event of its foreman in the project, with what is
/// to be said of it.
pub proof fn law_steps_are_events_of_the_foreman(
    project_id: u128,
    agent_id: u128,
    turn_id: Option<Seq<char>>,
    role: AgentRole,
    method: Seq<char>,
    params: json::JsonView,
    event_id: u128,
    ts: u64,
)
    ensures
        ({
            let c = lifecycle_context(
                project_id,
                agent_id,
                turn_id,
                role,
                method,
                params,
                event_id,
                ts,
            );
            &&& c.project_id == Some(project_id)
            &&& c.agent_id == agent_id && c.foreman_id == Some(agent_id)
            &&& c.turn_id == turn_id && c.role == role && c.method == method
            &&& c.params == params && c.event_id == event_id && c.ts == ts
            &&& c.result_snapshot is None && c.job_id is None
        }),
{
}

/// What is passed up from a project follows its lists: those of the callback where there are any,
/// else those of the policy; without a list everything is passed up.
pub proof fn law_lists_decide_what_is_passed_up(p: ProjectView, method: Seq<char>)
    ensures
        p.config.callbacks.bubble_up.callback_events is None && p.config.policy.bubble_up_events
            is None ==> passes_up(p, method),
{
}

/// The variables of an event in a project tell of the project: its identifier, path, name and
/// status, over those of the event.
pub proof fn law_variables_tell_of_the_project(p: ProjectView, c: agent_events::ContextView)
    ensures
        text_map::value_of(project_vars(p, c), "project_path"@) == Some(p.path),
        text_map::value_of(project_vars(p, c), "project_name"@) == Some(p.name),
        text_map::value_of(project_vars(p, c), "project_status"@) == Some(p.status),
        text_map::value_of(project_vars(p, c), "project_id"@) == Some(ids::uuid_text(p.id)),
        p.foreman_agent_id is Some ==> text_map::value_of(project_vars(p, c), "project_foreman_id"@)
            == Some(ids::uuid_text(p.foreman_agent_id->0)),
{
    reveal_strlit("project_id");
    reveal_strlit("project_path");
    reveal_strlit("project_name");
    reveal_strlit("project_status");
    reveal_strlit("project_foreman_id");
    assert("project_id"@.len() == 10);
    assert("project_path"@.len() == 12 && "project_path"@[8] == 'p');
    assert("project_name"@.len() == 12 && "project_name"@[8] == 'n');
    assert("project_status"@.len() == 14);
    assert("project_foreman_id"@.len() == 18);
    lemma_project_var(p, c, "project_path"@);
    lemma_project_var(p, c, "project_name"@);
    lemma_project_var(p, c, "project_status"@);
    lemma_project_var(p, c, "project_id"@);
    lemma_project_var(p, c, "project_foreman_id"@);
}

proof fn lemma_project_var(p: ProjectView, c: agent_events::ContextView, key: Seq<char>)
    ensures
        text_map::value_of(project_vars(p, c), key) == (if key == "project_foreman_id"@
            && p.foreman_agent_id is Some {
            Some(ids::uuid_text(p.foreman_agent_id->0))
        } else if key == "project_status"@ {
            Some(p.status)
        } else if key == "project_name"@ {
            Some(p.name)
        } else if key == "project_path"@ {
            Some(p.path)
        } else if key == "project_id"@ {
            Some(ids::uuid_text(p.id))
        } else {
            text_map::value_of(payload::event_vars(c, Seq::empty()), key)
        }),
{
    let v0 = payload::event_vars(c, Seq::empty());
    let v1 = text_map::put(v0, constants::PROJECT_VAR_ID@, ids::uuid_text(p.id));
    let v2 = text_map::put(v1, constants::PROJECT_VAR_PATH@, p.path);
    let v3 = text_map::put(v2, constants::PROJECT_VAR_NAME@, p.name);
    let v4 = text_map::put(v3, constants::PROJECT_VAR_STATUS@, p.status);
    text_map::lemma_value_put(v0, "project_id"@, ids::uuid_text(p.id), key);
    text_map::lemma_value_put(v1, "project_path"@, p.path, key);
    text_map::lemma_value_put(v2, "project_name"@, p.name, key);
    text_map::lemma_value_put(v3, "project_status"@, p.status, key);
    if p.foreman_agent_id is Some {
        text_map::lemma_value_put(
            v4,
            "project_foreman_id"@,
            ids::uuid_text(p.foreman_agent_id->0),
            key,
        );
    }
}

/// What is passed up goes where the callback says: nowhere without one, to its address with its
/// secret, or to its socket; a profile that the service has not got is refused.
pub proof fn law_what_is_passed_up_is_delivered(
    p: ProjectView,
    c: agent_events::ContextView,
    chosen: WorkerCallback,
    service_profiles: Map<Seq<char>, CallbackProfile>,
    env: Map<Seq<char>, Option<String>>,
)
    ensures
        ({
            let d = bubble_delivery(p, c, chosen, service_profiles, env);
            &&& chosen is Unset ==> d is Ok && d->Ok_0 is Nothing
            &&& chosen is Webhook ==> d is Ok && d->Ok_0 is Webhook && d->Ok_0->Webhook_0.url
                == chosen->Webhook_0.url@ && d->Ok_0->Webhook_0.secret == text::opt_text(
                chosen->Webhook_0.secret,
            )
            &&& chosen is UnixSocket ==> d is Ok && d->Ok_0 is UnixSocket && d->Ok_0->socket
                == chosen->UnixSocket_0.socket@
            &&& chosen is Profile && !service_profiles.dom().contains(chosen->Profile_0.profile@)
                ==> d is Err
            &&& chosen is Profile && service_profiles.dom().contains(chosen->Profile_0.profile@)
                && service_profiles[chosen->Profile_0.profile@] is Webhook ==> d is Ok
                && d->Ok_0 is Webhook && d->Ok_0->Webhook_0.url
                == service_profiles[chosen->Profile_0.profile@]->Webhook_0.url@
        }),
{
}

/// A step of a project's life is delivered whatever the list of events says.
pub proof fn law_steps_are_delivered_whatever_the_list(
    p: ProjectView,
    c: agent_events::ContextView,
    w: crate::agent::WorkerWebhookCallback,
    config: ServiceConfig,
    env: Map<Seq<char>, Option<String>>,
)
    ensures
        ({
            let d = lifecycle_delivery(p, c, WorkerCallback::Webhook(w), config, env);
            &&& d is Ok && d->Ok_0 is Webhook
            &&& d->Ok_0->Webhook_0.url == w.url@
        }),
{
}

} // verus!

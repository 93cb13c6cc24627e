//! Which callback an agent or a project gets: from its profile, from what a request asks for
//! and from what is configured.
use vstd::prelude::*;

use crate::agent;
use crate::agent::{
    WorkerCallback, WorkerProfileCallback, WorkerUnixSocketCallback, WorkerWebhookCallback,
};
use crate::config::{CallbackProfile, ServiceConfig};
use crate::constants;
use crate::error::ForemanError;
use crate::json;
use crate::models::{clone_opt_texts, clone_opt_vars, clone_vars, CallbackOverrides, SendAgentInput};
use crate::project::{CallbackSpec, ProjectCallbacks};
use crate::text;
use crate::text::same_text;
use crate::text_map::TextMap;
use crate::vars;
use crate::vars::merge_vars;

verus! {

/// The variables of the environment. One whose value is no text has none.
pub type EnvVars = TextMap<Option<String>>;

/// The value of a variable of the environment.
pub open spec fn env_value(env: Map<Seq<char>, Option<String>>, name: Option<Seq<char>>) -> Option<
    Seq<char>,
> {
    match name {
        Some(n) => if env.dom().contains(n) {
            text::opt_text(env[n])
        } else {
            None
        },
        None => None,
    }
}

/// The value of a variable of the environment.
pub fn read_env(env: &EnvVars, name: &Option<String>) -> (r: Option<String>)
    ensures
        text::opt_text(r) == env_value(env@, text::opt_text(*name)),
{
    match name {
        Some(n) => match env.get(n.as_str()) {
            Some(value) => value.clone(),
            None => None,
        },
        None => None,
    }
}

/// What a callback is resolved from.
#[derive(Debug, Clone)]
pub struct CallbackResolutionParams {
    pub callback_profile: Option<String>,
    pub callback_prompt_prefix: Option<String>,
    pub callback_args: Option<Vec<String>>,
    pub callback_vars: Option<TextMap<String>>,
    pub callback_events: Option<Vec<String>>,
    pub use_global_default: bool,
}

/// What a callback is resolved from.
pub struct ParamsView {
    pub profile: Option<Seq<char>>,
    pub prompt_prefix: Option<Seq<char>>,
    pub args: Option<Seq<Seq<char>>>,
    pub vars: Option<Map<Seq<char>, Seq<char>>>,
    pub events: Option<Seq<Seq<char>>>,
    pub use_global_default: bool,
}

/// An optional map of texts.
pub open spec fn opt_vars(v: Option<TextMap<String>>) -> Option<Map<Seq<char>, Seq<char>>> {
    match v {
        Some(m) => Some(vars::values_of(m@)),
        None => None,
    }
}

/// A map, or the empty one.
pub open spec fn or_empty(v: Option<Map<Seq<char>, Seq<char>>>) -> Map<Seq<char>, Seq<char>> {
    match v {
        Some(m) => m,
        None => Map::empty(),
    }
}

impl View for CallbackResolutionParams {
    type V = ParamsView;

    open spec fn view(&self) -> ParamsView {
        ParamsView {
            profile: text::opt_text(self.callback_profile),
            prompt_prefix: text::opt_text(self.callback_prompt_prefix),
            args: text::opt_texts(self.callback_args),
            vars: opt_vars(self.callback_vars),
            events: text::opt_texts(self.callback_events),
            use_global_default: self.use_global_default,
        }
    }
}

/// The profile of a name: that of the project, else that of the service.
pub open spec fn found_profile(
    project_profiles: Option<Map<Seq<char>, CallbackProfile>>,
    service_profiles: Map<Seq<char>, CallbackProfile>,
    name: Seq<char>,
) -> Option<CallbackProfile> {
    if project_profiles matches Some(m) && m.dom().contains(name) {
        Some(project_profiles->0[name])
    } else if service_profiles.dom().contains(name) {
        Some(service_profiles[name])
    } else {
        None
    }
}

/// The profiles of a project.
pub open spec fn opt_profiles(profiles: Option<&TextMap<CallbackProfile>>) -> Option<
    Map<Seq<char>, CallbackProfile>,
> {
    match profiles {
        Some(p) => Some(p@),
        None => None,
    }
}

/// The profile of a name: that of the project, else that of the service.
pub fn resolve_callback_profile<'a>(
    config: &'a ServiceConfig,
    project_profiles: Option<&'a TextMap<CallbackProfile>>,
    name: &str,
) -> (r: Option<&'a CallbackProfile>)
    ensures
        match found_profile(opt_profiles(project_profiles), config.callbacks.profiles@, name@) {
            Some(p) => r matches Some(q) && *q == p,
            None => r is None,
        },
{
    if let Some(profiles) = project_profiles {
        if let Some(profile) = profiles.get(name) {
            return Some(profile);
        }
    }
    config.get_callback_profile(name)
}

/// The name of the profile that is asked for, which may be empty.
pub open spec fn wanted_profile(p: ParamsView, default_profile: Option<Seq<char>>) -> Seq<char> {
    let named = if p.use_global_default {
        json::either(p.profile, default_profile)
    } else {
        p.profile
    };
    match named {
        Some(name) => name,
        None => Seq::empty(),
    }
}

/// That a profile is not configured.
pub open spec fn not_configured(name: Seq<char>) -> Seq<char> {
    "callback profile '"@ + name + "' is not configured"@
}

/// The callback of a profile.
pub open spec fn callback_of(
    name: Seq<char>,
    profile: CallbackProfile,
    p: ParamsView,
    env: Map<Seq<char>, Option<String>>,
) -> agent::CallbackView {
    match profile {
        CallbackProfile::Webhook(w) => agent::CallbackView::Webhook {
            url: w.url@,
            secret: env_value(env, text::opt_text(w.secret_env)),
            events: json::either(p.events, text::opt_texts(w.events)),
            timeout_ms: w.timeout_ms,
            vars: or_empty(p.vars),
        },
        CallbackProfile::UnixSocket(u) => agent::CallbackView::UnixSocket {
            socket: u.socket@,
            events: json::either(p.events, text::opt_texts(u.events)),
            timeout_ms: u.timeout_ms,
            vars: or_empty(p.vars),
        },
        CallbackProfile::Command(_) => agent::CallbackView::Profile {
            profile: name,
            prompt_prefix: p.prompt_prefix,
            command_args: p.args,
            events: p.events,
            vars: or_empty(p.vars),
        },
    }
}

/// The callback that is asked for: none without a profile, else that of the profile, which has
/// to be configured.
pub open spec fn resolved(
    config: ServiceConfig,
    project_profiles: Option<Map<Seq<char>, CallbackProfile>>,
    p: ParamsView,
    env: Map<Seq<char>, Option<String>>,
) -> Result<agent::CallbackView, Seq<Seq<char>>> {
    let name = wanted_profile(p, text::opt_text(config.callbacks.default_profile));
    if name.len() == 0 {
        Ok(agent::CallbackView::Unset)
    } else {
        match found_profile(project_profiles, config.callbacks.profiles@, name) {
            Some(profile) => Ok(callback_of(name, profile, p, env)),
            None => Err(seq![not_configured(name)]),
        }
    }
}

/// Whether a result is what a spec function says.
pub open spec fn gives(
    r: Result<WorkerCallback, ForemanError>,
    expected: Result<agent::CallbackView, Seq<Seq<char>>>,
) -> bool {
    match expected {
        Ok(c) => r matches Ok(callback) && callback@ == c,
        Err(chain) => r matches Err(e) && e@ == chain,
    }
}

fn or_no_vars(vars: Option<TextMap<String>>) -> (r: TextMap<String>)
    ensures
        vars::values_of(r@) == or_empty(opt_vars(vars)),
{
    match vars {
        Some(v) => v,
        None => {
            let r: TextMap<String> = TextMap::new();
            assert(vars::values_of(r@) == Map::<Seq<char>, Seq<char>>::empty());
            r
        },
    }
}

fn first_texts(a: Option<Vec<String>>, b: &Option<Vec<String>>) -> (r: Option<Vec<String>>)
    ensures
        text::opt_texts(r) == json::either(text::opt_texts(a), text::opt_texts(*b)),
{
    match a {
        Some(v) => Some(v),
        None => clone_opt_texts(b),
    }
}

fn first_text(a: Option<String>, b: &Option<String>) -> (r: Option<String>)
    ensures
        text::opt_text(r) == json::either(text::opt_text(a), text::opt_text(*b)),
{
    match a {
        Some(s) => Some(s),
        None => b.clone(),
    }
}

/// The callback that is asked for, with the profiles of a project before those of the service.
pub fn resolve_callback_with_project_profiles(
    config: &ServiceConfig,
    params: CallbackResolutionParams,
    project_profiles: Option<&TextMap<CallbackProfile>>,
    env: &EnvVars,
) -> (r: Result<WorkerCallback, ForemanError>)
    ensures
        gives(r, resolved(*config, opt_profiles(project_profiles), params@, env@)),
{
    let named = if params.use_global_default {
        first_text(params.callback_profile, &config.callbacks.default_profile)
    } else {
        params.callback_profile
    };
    let name = match named {
        Some(name) => name,
        None => {
            return Ok(WorkerCallback::Unset);
        },
    };
    if name.as_str().is_empty() {
        return Ok(WorkerCallback::Unset);
    }
    match resolve_callback_profile(config, project_profiles, name.as_str()) {
        None => {
            let mut message = "callback profile '".to_owned();
            message.append(name.as_str());
            message.append("' is not configured");
            Err(ForemanError::new(message))
        },
        Some(CallbackProfile::Webhook(w)) => Ok(
            WorkerCallback::Webhook(
                WorkerWebhookCallback {
                    url: w.url.clone(),
                    secret: read_env(env, &w.secret_env),
                    events: first_texts(params.callback_events, &w.events),
                    timeout_ms: w.timeout_ms,
                    vars: or_no_vars(params.callback_vars),
                },
            ),
        ),
        Some(CallbackProfile::UnixSocket(u)) => Ok(
            WorkerCallback::UnixSocket(
                WorkerUnixSocketCallback {
                    socket: u.socket.clone(),
                    events: first_texts(params.callback_events, &u.events),
                    timeout_ms: u.timeout_ms,
                    vars: or_no_vars(params.callback_vars),
                },
            ),
        ),
        Some(CallbackProfile::Command(_)) => Ok(
            WorkerCallback::Profile(
                WorkerProfileCallback {
                    profile: name,
                    prompt_prefix: params.callback_prompt_prefix,
                    command_args: params.callback_args,
                    events: params.callback_events,
                    vars: or_no_vars(params.callback_vars),
                },
            ),
        ),
    }
}

/// The callback that is asked for, with the profiles of the service alone.
pub fn resolve_callback(config: &ServiceConfig, params: CallbackResolutionParams, env: &EnvVars) -> (r:
    Result<WorkerCallback, ForemanError>)
    ensures
        gives(r, resolved(*config, None, params@, env@)),
{
    resolve_callback_with_project_profiles(config, params, None, env)
}

/// Both maps; those of the second win.
pub open spec fn merged(
    base: Option<Map<Seq<char>, Seq<char>>>,
    extra: Option<Map<Seq<char>, Seq<char>>>,
) -> Option<Map<Seq<char>, Seq<char>>> {
    match (base, extra) {
        (Some(b), Some(e)) => Some(b.union_prefer_right(e)),
        (Some(b), None) => Some(b),
        (None, Some(e)) => Some(e),
        (None, None) => None,
    }
}

/// What a project's callback is resolved from: what the request asks for wins over what is
/// configured.
pub open spec fn project_params(
    spec_: CallbackSpec,
    overrides: CallbackOverrides,
    use_global_default: bool,
) -> ParamsView {
    ParamsView {
        profile: json::either(
            text::opt_text(overrides.callback_profile),
            text::opt_text(spec_.callback_profile),
        ),
        prompt_prefix: json::either(
            text::opt_text(overrides.callback_prompt_prefix),
            text::opt_text(spec_.callback_prompt_prefix),
        ),
        args: json::either(
            text::opt_texts(overrides.callback_args),
            text::opt_texts(spec_.callback_args),
        ),
        vars: merged(opt_vars(spec_.callback_vars), opt_vars(overrides.callback_vars)),
        events: json::either(
            text::opt_texts(overrides.callback_events),
            json::either(text::opt_texts(spec_.callback_events), text::opt_texts(spec_.events)),
        ),
        use_global_default,
    }
}

/// The callback of a project: the socket where no profile is asked for, else the profile's.
pub open spec fn project_resolved(
    config: ServiceConfig,
    spec_: CallbackSpec,
    project_profiles: Map<Seq<char>, CallbackProfile>,
    overrides: CallbackOverrides,
    use_global_default: bool,
    env: Map<Seq<char>, Option<String>>,
) -> Result<agent::CallbackView, Seq<Seq<char>>> {
    let p = project_params(spec_, overrides, use_global_default);
    if p.profile is None && spec_.socket is Some {
        Ok(
            agent::CallbackView::UnixSocket {
                socket: spec_.socket->0@,
                events: p.events,
                timeout_ms: spec_.timeout_ms,
                vars: or_empty(p.vars),
            },
        )
    } else {
        resolved(config, Some(project_profiles), p, env)
    }
}

/// The values of two maps put together.
pub proof fn lemma_values_of_union(a: Map<Seq<char>, String>, b: Map<Seq<char>, String>)
    ensures
        vars::values_of(a.union_prefer_right(b)) == vars::values_of(a).union_prefer_right(
            vars::values_of(b),
        ),
{
}

fn merge_opt_vars(base: &Option<TextMap<String>>, extra: &Option<TextMap<String>>) -> (r: Option<
    TextMap<String>,
>)
    ensures
        opt_vars(r) == merged(opt_vars(*base), opt_vars(*extra)),
{
    match base {
        Some(b) => {
            proof {
                if extra is Some {
                    lemma_values_of_union(b@, extra->0@);
                }
            }
            Some(merge_vars(clone_vars(b), clone_opt_vars(extra)))
        },
        None => clone_opt_vars(extra),
    }
}

/// The callback of a project.
pub fn resolve_project_callback_spec(
    config: &ServiceConfig,
    spec_: &CallbackSpec,
    project_profiles: &TextMap<CallbackProfile>,
    overrides: &CallbackOverrides,
    use_global_default: bool,
    env: &EnvVars,
) -> (r: Result<WorkerCallback, ForemanError>)
    ensures
        gives(
            r,
            project_resolved(
                *config,
                *spec_,
                project_profiles@,
                *overrides,
                use_global_default,
                env@,
            ),
        ),
{
    let callback_profile = first_text(
        overrides.callback_profile.clone(),
        &spec_.callback_profile,
    );
    let callback_events = first_texts(
        clone_opt_texts(&overrides.callback_events),
        &first_texts(clone_opt_texts(&spec_.callback_events), &spec_.events),
    );
    let callback_vars = merge_opt_vars(&spec_.callback_vars, &overrides.callback_vars);
    if callback_profile.is_none() {
        if let Some(socket) = &spec_.socket {
            return Ok(
                WorkerCallback::UnixSocket(
                    WorkerUnixSocketCallback {
                        socket: socket.clone(),
                        events: callback_events,
                        timeout_ms: spec_.timeout_ms,
                        vars: or_no_vars(callback_vars),
                    },
                ),
            );
        }
    }
    let params = CallbackResolutionParams {
        callback_profile,
        callback_prompt_prefix: first_text(
            overrides.callback_prompt_prefix.clone(),
            &spec_.callback_prompt_prefix,
        ),
        callback_args: first_texts(
            clone_opt_texts(&overrides.callback_args),
            &spec_.callback_args,
        ),
        callback_vars,
        callback_events,
        use_global_default,
    };
    assert(params@ == project_params(*spec_, *overrides, use_global_default));
    resolve_callback_with_project_profiles(config, params, Some(project_profiles), env)
}

/// Where a project passes up what happens to its workers.
pub fn resolve_project_bubble_callback(
    config: &ServiceConfig,
    callbacks: &ProjectCallbacks,
    overrides: &CallbackOverrides,
    env: &EnvVars,
) -> (r: Result<WorkerCallback, ForemanError>)
    ensures
        gives(
            r,
            project_resolved(
                *config,
                callbacks.bubble_up,
                callbacks.profiles@,
                *overrides,
                false,
                env@,
            ),
        ),
{
    resolve_project_callback_spec(
        config,
        &callbacks.bubble_up,
        &callbacks.profiles,
        overrides,
        false,
        env,
    )
}

/// What is configured for something that happens to a project.
pub open spec fn lifecycle_spec(c: ProjectCallbacks, key: Seq<char>) -> Option<CallbackSpec> {
    if key == constants::PROJECT_LIFECYCLE_START@ {
        Some(c.lifecycle.start)
    } else if key == constants::PROJECT_LIFECYCLE_COMPACT@ {
        Some(c.lifecycle.compact)
    } else if key == constants::PROJECT_LIFECYCLE_STOP@ {
        Some(c.lifecycle.stop)
    } else if key == constants::PROJECT_LIFECYCLE_WORKER_COMPLETED@ {
        Some(c.lifecycle.worker_completed)
    } else if key == constants::PROJECT_LIFECYCLE_WORKER_ABORTED@ {
        Some(c.lifecycle.worker_aborted)
    } else {
        None
    }
}

/// The callback for something that happens to a project.
pub open spec fn lifecycle_resolved(
    config: ServiceConfig,
    c: ProjectCallbacks,
    key: Seq<char>,
    overrides: CallbackOverrides,
    env: Map<Seq<char>, Option<String>>,
) -> Result<agent::CallbackView, Seq<Seq<char>>> {
    match lifecycle_spec(c, key) {
        Some(s) => project_resolved(config, s, c.profiles@, overrides, false, env),
        None => Ok(agent::CallbackView::Unset),
    }
}

/// The callback for something that happens to a project.
pub fn resolve_project_lifecycle_callback_spec(
    config: &ServiceConfig,
    callbacks: &ProjectCallbacks,
    lifecycle_key: &str,
    overrides: &CallbackOverrides,
    env: &EnvVars,
) -> (r: Result<WorkerCallback, ForemanError>)
    ensures
        gives(r, lifecycle_resolved(*config, *callbacks, lifecycle_key@, *overrides, env@)),
{
    let chosen = if same_text(lifecycle_key, constants::PROJECT_LIFECYCLE_START) {
        &callbacks.lifecycle.start
    } else if same_text(lifecycle_key, constants::PROJECT_LIFECYCLE_COMPACT) {
        &callbacks.lifecycle.compact
    } else if same_text(lifecycle_key, constants::PROJECT_LIFECYCLE_STOP) {
        &callbacks.lifecycle.stop
    } else if same_text(lifecycle_key, constants::PROJECT_LIFECYCLE_WORKER_COMPLETED) {
        &callbacks.lifecycle.worker_completed
    } else if same_text(lifecycle_key, constants::PROJECT_LIFECYCLE_WORKER_ABORTED) {
        &callbacks.lifecycle.worker_aborted
    } else {
        return Ok(WorkerCallback::Unset);
    };
    resolve_project_callback_spec(config, chosen, &callbacks.profiles, overrides, false, env)
}

/// Whether a request asks for another callback.
pub open spec fn changes_callback(input: SendAgentInput) -> bool {
    input.callback_profile is Some || input.callback_prompt_prefix is Some || input.callback_args
        is Some || input.callback_vars is Some || input.callback_events is Some
}

/// Whether a request asks for another callback.
pub fn has_callback_update_fields(input: &SendAgentInput) -> (r: bool)
    ensures
        r == changes_callback(*input),
{
    input.callback_profile.is_some() || input.callback_prompt_prefix.is_some()
        || input.callback_args.is_some() || input.callback_vars.is_some()
        || input.callback_events.is_some()
}

/// What a callback is resolved from that a request asks for.
pub open spec fn send_params(input: SendAgentInput, profile: Option<Seq<char>>) -> ParamsView {
    ParamsView {
        profile,
        prompt_prefix: text::opt_text(input.callback_prompt_prefix),
        args: text::opt_texts(input.callback_args),
        vars: opt_vars(input.callback_vars),
        events: text::opt_texts(input.callback_events),
        use_global_default: true,
    }
}

/// Variables with those that a request adds.
pub open spec fn with_vars(
    base: Map<Seq<char>, Seq<char>>,
    extra: Option<Map<Seq<char>, Seq<char>>>,
) -> Map<Seq<char>, Seq<char>> {
    match extra {
        Some(e) => base.union_prefer_right(e),
        None => base,
    }
}

/// The callback of an agent after a request: the same where the request asks for none, that of
/// the profile where it names one, and else the same with what the request changes of it.
pub open spec fn send_resolved(
    config: ServiceConfig,
    input: SendAgentInput,
    existing: agent::CallbackView,
    env: Map<Seq<char>, Option<String>>,
) -> Result<agent::CallbackView, Seq<Seq<char>>> {
    let extra = opt_vars(input.callback_vars);
    let events = text::opt_texts(input.callback_events);
    if !changes_callback(input) {
        Ok(existing)
    } else if input.callback_profile is Some {
        resolved(config, None, send_params(input, text::opt_text(input.callback_profile)), env)
    } else {
        match existing {
            agent::CallbackView::Webhook { url, secret, events: had, timeout_ms, vars } => Ok(
                agent::CallbackView::Webhook {
                    url,
                    secret,
                    events: json::either(events, had),
                    timeout_ms,
                    vars: with_vars(vars, extra),
                },
            ),
            agent::CallbackView::UnixSocket { socket, events: had, timeout_ms, vars } => Ok(
                agent::CallbackView::UnixSocket {
                    socket,
                    events: json::either(events, had),
                    timeout_ms,
                    vars: with_vars(vars, extra),
                },
            ),
            agent::CallbackView::Profile {
                profile,
                prompt_prefix,
                command_args,
                events: had,
                vars,
            } => Ok(
                agent::CallbackView::Profile {
                    profile,
                    prompt_prefix: json::either(
                        text::opt_text(input.callback_prompt_prefix),
                        prompt_prefix,
                    ),
                    command_args: json::either(
                        text::opt_texts(input.callback_args),
                        command_args,
                    ),
                    events: json::either(events, had),
                    vars: with_vars(vars, extra),
                },
            ),
            agent::CallbackView::Unset => match text::opt_text(config.callbacks.default_profile) {
                Some(name) => resolved(config, None, send_params(input, Some(name)), env),
                None => Err(seq!["no callback profile configured"@]),
            },
        }
    }
}

fn params_for_send(input: &SendAgentInput, profile: String) -> (r: CallbackResolutionParams)
    ensures
        r@ == send_params(*input, Some(profile@)),
{
    CallbackResolutionParams {
        callback_profile: Some(profile),
        callback_prompt_prefix: input.callback_prompt_prefix.clone(),
        callback_args: clone_opt_texts(&input.callback_args),
        callback_vars: clone_opt_vars(&input.callback_vars),
        callback_events: clone_opt_texts(&input.callback_events),
        use_global_default: true,
    }
}

fn add_vars(base: &TextMap<String>, extra: &Option<TextMap<String>>) -> (r: TextMap<String>)
    ensures
        vars::values_of(r@) == with_vars(vars::values_of(base@), opt_vars(*extra)),
{
    proof {
        if extra is Some {
            lemma_values_of_union(base@, extra->0@);
        }
    }
    merge_vars(clone_vars(base), clone_opt_vars(extra))
}

/// The callback of an agent after a request.
pub fn resolve_callback_for_send(
    config: &ServiceConfig,
    input: &SendAgentInput,
    existing: &WorkerCallback,
    env: &EnvVars,
) -> (r: Result<WorkerCallback, ForemanError>)
    ensures
        gives(r, send_resolved(*config, *input, existing@, env@)),
{
    if !has_callback_update_fields(input) {
        return Ok(existing.clone());
    }
    if let Some(profile) = &input.callback_profile {
        return resolve_callback(config, params_for_send(input, profile.clone()), env);
    }
    match existing {
        WorkerCallback::Webhook(c) => Ok(
            WorkerCallback::Webhook(
                WorkerWebhookCallback {
                    url: c.url.clone(),
                    secret: c.secret.clone(),
                    events: first_texts(clone_opt_texts(&input.callback_events), &c.events),
                    timeout_ms: c.timeout_ms,
                    vars: add_vars(&c.vars, &input.callback_vars),
                },
            ),
        ),
        WorkerCallback::UnixSocket(c) => Ok(
            WorkerCallback::UnixSocket(
                WorkerUnixSocketCallback {
                    socket: c.socket.clone(),
                    events: first_texts(clone_opt_texts(&input.callback_events), &c.events),
                    timeout_ms: c.timeout_ms,
                    vars: add_vars(&c.vars, &input.callback_vars),
                },
            ),
        ),
        WorkerCallback::Profile(c) => Ok(
            WorkerCallback::Profile(
                WorkerProfileCallback {
                    profile: c.profile.clone(),
                    prompt_prefix: first_text(
                        input.callback_prompt_prefix.clone(),
                        &c.prompt_prefix,
                    ),
                    command_args: first_texts(
                        clone_opt_texts(&input.callback_args),
                        &c.command_args,
                    ),
                    events: first_texts(clone_opt_texts(&input.callback_events), &c.events),
                    vars: add_vars(&c.vars, &input.callback_vars),
                },
            ),
        ),
        WorkerCallback::Unset => match config.default_callback_profile() {
            Some(name) => resolve_callback(config, params_for_send(input, name), env),
            None => Err(ForemanError::from_text("no callback profile configured")),
        },
    }
}

/// A profile of the project hides the profile of the same name of the service.
pub proof fn law_project_profile_comes_first(
    project_profiles: Map<Seq<char>, CallbackProfile>,
    service_profiles: Map<Seq<char>, CallbackProfile>,
    name: Seq<char>,
)
    ensures
        project_profiles.dom().contains(name) ==> found_profile(
            Some(project_profiles),
            service_profiles,
            name,
        ) == Some(project_profiles[name]),
        !project_profiles.dom().contains(name) ==> found_profile(
            Some(project_profiles),
            service_profiles,
            name,
        ) == found_profile(None, service_profiles, name),
{
}

/// A request that says nothing of a callback leaves the callback as it is, whatever is
/// configured.
pub proof fn law_plain_request_keeps_the_callback(
    config: ServiceConfig,
    input: SendAgentInput,
    existing: agent::CallbackView,
    env: Map<Seq<char>, Option<String>>,
)
    requires
        !changes_callback(input),
    ensures
        send_resolved(config, input, existing, env) == Ok::<
            agent::CallbackView,
            Seq<Seq<char>>,
        >(existing),
{
}

/// The value of a variable of the environment is read where it is named and set.
pub proof fn law_secrets_come_from_the_environment(
    env: Map<Seq<char>, Option<String>>,
    name: Seq<char>,
)
    ensures
        env_value(env, None) is None,
        !env.dom().contains(name) ==> env_value(env, Some(name)) is None,
        env.dom().contains(name) && env[name] is Some ==> env_value(env, Some(name)) == Some(
            env[name]->0@,
        ),
{
}

/// A profile that is named is taken as it stands: one that posts gives its address, the secret from
/// the environment, and its own events unless others are asked for, and one that runs a command
/// keeps its name and what was asked for. One that is named nowhere is refused, and without a name
/// there is no callback.
pub proof fn law_named_profiles_are_taken(
    config: ServiceConfig,
    project_profiles: Option<Map<Seq<char>, CallbackProfile>>,
    p: ParamsView,
    env: Map<Seq<char>, Option<String>>,
)
    ensures
        ({
            let r = resolved(config, project_profiles, p, env);
            let names_default = p.use_global_default && config.callbacks.default_profile is Some;
            &&& p.profile is None && !names_default ==> r == Ok::<
                agent::CallbackView,
                Seq<Seq<char>>,
            >(agent::CallbackView::Unset)
            &&& p.profile is Some && p.profile->0.len() > 0 ==> {
                let name = p.profile->0;
                let found = found_profile(project_profiles, config.callbacks.profiles@, name);
                &&& found is None ==> r is Err
                &&& found is Some ==> r is Ok
                &&& found is Some && found->0 is Webhook ==> {
                    let w = found->0->Webhook_0;
                    &&& r->Ok_0 is Webhook
                    &&& r->Ok_0->Webhook_url == w.url@
                    &&& r->Ok_0->Webhook_timeout_ms == w.timeout_ms
                    &&& p.events is Some ==> r->Ok_0->Webhook_events == p.events
                    &&& p.events is None ==> r->Ok_0->Webhook_events == text::opt_texts(w.events)
                    &&& w.secret_env is None ==> r->Ok_0->secret is None
                    &&& w.secret_env is Some && env.dom().contains(w.secret_env->0@)
                        && env[w.secret_env->0@] is Some ==> r->Ok_0->secret == Some(
                        env[w.secret_env->0@]->0@,
                    )
                }
                &&& found is Some && found->0 is UnixSocket ==> r->Ok_0 is UnixSocket
                    && r->Ok_0->socket == (found->0->UnixSocket_0).socket@
                &&& found is Some && found->0 is Command ==> r->Ok_0 is Profile
                    && r->Ok_0->profile == name && r->Ok_0->command_args == p.args
                    && r->Ok_0->prompt_prefix == p.prompt_prefix
            }
            &&& p.profile is None && names_default && config.callbacks.default_profile->0@.len()
                > 0 ==> r == resolved(
                config,
                project_profiles,
                ParamsView { profile: Some(config.callbacks.default_profile->0@), ..p },
                env,
            )
        }),
{
}

/// What a request asks for goes before what is set for the project, field by field; variables of
/// both are kept, and those of the request go before.
pub proof fn law_requests_go_before_settings(
    spec_: CallbackSpec,
    overrides: CallbackOverrides,
    use_global_default: bool,
    name: Seq<char>,
)
    ensures
        ({
            let p = project_params(spec_, overrides, use_global_default);
            &&& overrides.callback_profile is Some ==> p.profile == Some(
                overrides.callback_profile->0@,
            )
            &&& overrides.callback_profile is None ==> p.profile == text::opt_text(
                spec_.callback_profile,
            )
            &&& overrides.callback_args is Some ==> p.args == text::opt_texts(
                overrides.callback_args,
            )
            &&& overrides.callback_args is None ==> p.args == text::opt_texts(spec_.callback_args)
            &&& overrides.callback_events is Some ==> p.events == text::opt_texts(
                overrides.callback_events,
            )
            &&& overrides.callback_events is None && spec_.callback_events is Some ==> p.events
                == text::opt_texts(spec_.callback_events)
            &&& overrides.callback_events is None && spec_.callback_events is None ==> p.events
                == text::opt_texts(spec_.events)
            &&& overrides.callback_prompt_prefix is Some ==> p.prompt_prefix == Some(
                overrides.callback_prompt_prefix->0@,
            )
            &&& overrides.callback_vars is Some && opt_vars(
                overrides.callback_vars,
            )->0.dom().contains(name) ==> p.vars is Some && p.vars->0.dom().contains(name)
                && p.vars->0[name] == opt_vars(overrides.callback_vars)->0[name]
            &&& spec_.callback_vars is Some && opt_vars(spec_.callback_vars)->0.dom().contains(name)
                && (overrides.callback_vars is None || !opt_vars(
                overrides.callback_vars,
            )->0.dom().contains(name)) ==> p.vars is Some && p.vars->0.dom().contains(name)
                && p.vars->0[name] == opt_vars(spec_.callback_vars)->0[name]
            &&& p.use_global_default == use_global_default
        }),
{
}

/// A socket is used where a project sets one and names no profile.
pub proof fn law_sockets_stand_in_for_profiles(
    config: ServiceConfig,
    spec_: CallbackSpec,
    project_profiles: Map<Seq<char>, CallbackProfile>,
    overrides: CallbackOverrides,
    use_global_default: bool,
    env: Map<Seq<char>, Option<String>>,
)
    requires
        spec_.socket is Some,
        spec_.callback_profile is None,
        overrides.callback_profile is None,
    ensures
        ({
            let r = project_resolved(
                config,
                spec_,
                project_profiles,
                overrides,
                use_global_default,
                env,
            );
            &&& r is Ok && r->Ok_0 is UnixSocket
            &&& r->Ok_0->socket == spec_.socket->0@
            &&& r->Ok_0->UnixSocket_timeout_ms == spec_.timeout_ms
        }),
{
}

/// Each step of a project's life has its own callback, and there are no others.
pub proof fn law_each_step_has_its_callback(c: ProjectCallbacks, key: Seq<char>)
    ensures
        lifecycle_spec(c, "start"@) == Some(c.lifecycle.start),
        lifecycle_spec(c, "compact"@) == Some(c.lifecycle.compact),
        lifecycle_spec(c, "stop"@) == Some(c.lifecycle.stop),
        lifecycle_spec(c, "worker_completed"@) == Some(c.lifecycle.worker_completed),
        lifecycle_spec(c, "worker_aborted"@) == Some(c.lifecycle.worker_aborted),
        key != "start"@ && key != "compact"@ && key != "stop"@ && key != "worker_completed"@ && key
            != "worker_aborted"@ ==> lifecycle_spec(c, key) is None,
{
    reveal_strlit("start");
    reveal_strlit("compact");
    reveal_strlit("stop");
    reveal_strlit("worker_completed");
    reveal_strlit("worker_aborted");
    assert("start"@.len() == 5 && "compact"@.len() == 7 && "stop"@.len() == 4
        && "worker_completed"@.len() == 16 && "worker_aborted"@.len() == 14);
}

/// A request that changes a callback changes what it names and keeps the rest: the address stays
/// without a new profile, variables are added, and where there is nothing to change and no profile
/// by default the request is refused.
pub proof fn law_requests_change_what_they_name(
    config: ServiceConfig,
    input: SendAgentInput,
    existing: agent::CallbackView,
    env: Map<Seq<char>, Option<String>>,
    name: Seq<char>,
)
    requires
        input.callback_profile is None,
        input.callback_args is Some || input.callback_events is Some || input.callback_vars is Some
            || input.callback_prompt_prefix is Some,
    ensures
        ({
            let r = send_resolved(config, input, existing, env);
            &&& existing is Webhook ==> r is Ok && r->Ok_0 is Webhook && r->Ok_0->url
                == existing->url && r->Ok_0->secret == existing->secret
                && r->Ok_0->Webhook_timeout_ms == existing->Webhook_timeout_ms
            &&& existing is Webhook && input.callback_events is Some ==> r->Ok_0->Webhook_events
                == text::opt_texts(input.callback_events)
            &&& existing is Webhook && input.callback_events is None ==> r->Ok_0->Webhook_events
                == existing->Webhook_events
            &&& existing is UnixSocket ==> r is Ok && r->Ok_0 is UnixSocket && r->Ok_0->socket
                == existing->socket
            &&& existing is Profile ==> r is Ok && r->Ok_0 is Profile && r->Ok_0->profile
                == existing->profile
            &&& existing is Profile && input.callback_args is Some ==> r->Ok_0->command_args
                == text::opt_texts(input.callback_args)
            &&& existing is Profile && input.callback_args is None ==> r->Ok_0->command_args
                == existing->command_args
            &&& existing is Profile && input.callback_vars is Some && opt_vars(
                input.callback_vars,
            )->0.dom().contains(name) ==> r->Ok_0->Profile_vars.dom().contains(name)
                && r->Ok_0->Profile_vars[name] == opt_vars(input.callback_vars)->0[name]
            &&& existing is Profile && existing->Profile_vars.dom().contains(name)
                ==> r->Ok_0->Profile_vars.dom().contains(name)
            &&& existing is Unset && config.callbacks.default_profile is None ==> r is Err
        }),
{
}

/// A step of a project's life for which there is no callback has none: the profile by default does
/// not stand in for it.
pub proof fn law_steps_have_no_callback_by_default(
    config: ServiceConfig,
    c: ProjectCallbacks,
    key: Seq<char>,
    overrides: CallbackOverrides,
    env: Map<Seq<char>, Option<String>>,
)
    requires
        overrides.callback_profile is None,
        lifecycle_spec(c, key) is Some ==> lifecycle_spec(c, key)->0.callback_profile is None
            && lifecycle_spec(c, key)->0.socket is None,
    ensures
        lifecycle_resolved(config, c, key, overrides, env) == Ok::<
            agent::CallbackView,
            Seq<Seq<char>>,
        >(agent::CallbackView::Unset),
{
}

/// Any part of a callback that a request names makes it a change, and nothing else does.
pub proof fn law_each_part_is_a_change(input: SendAgentInput)
    ensures
        input.callback_profile is Some ==> changes_callback(input),
        input.callback_prompt_prefix is Some ==> changes_callback(input),
        input.callback_args is Some ==> changes_callback(input),
        input.callback_vars is Some ==> changes_callback(input),
        input.callback_events is Some ==> changes_callback(input),
        input.callback_profile is None && input.callback_prompt_prefix is None
            && input.callback_args is None && input.callback_vars is None && input.callback_events
            is None ==> !changes_callback(input),
{
}

/// What is given is what is expected: a callback where there is one, an error where there is not.
pub proof fn law_what_is_expected_is_given(
    r: Result<WorkerCallback, ForemanError>,
    expected: Result<agent::CallbackView, Seq<Seq<char>>>,
)
    requires
        gives(r, expected),
    ensures
        expected is Ok <==> r is Ok,
        expected is Ok ==> r->Ok_0@ == expected->Ok_0,
        expected is Err ==> r->Err_0@ == expected->Err_0,
{
}

} // verus!

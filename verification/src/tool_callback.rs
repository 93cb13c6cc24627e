//! Callbacks that fire when an agent of a project has run a command.
use vstd::prelude::*;

use crate::agent::{AgentRole, WorkerCallback, WorkerProfileCallback};
use crate::agent_events;
use crate::agent_events::{CallbackEventContext, ToolFilterDispatchContext};
use crate::callback;
use crate::callback::{dispatch_callback, Delivery};
use crate::config::{CallbackFilter, CallbackProfile, ServiceConfig};
use crate::constants;
use crate::error::ForemanError;
use crate::json;
use crate::models::ToolFilterCallbackPayload;
use crate::payload;
use crate::payload::write_filter_payload;
use crate::protocol;
use crate::protocol::parse_turn_id;
use crate::resolve;
use crate::resolve::{resolve_callback_profile, EnvVars};
use crate::text;
use crate::text_map::TextMap;
use crate::tools;
use crate::tools::{
    normalize_tool_name, parse_command, parse_exit_code, parse_output_tail, should_fire_tool_filter,
};
use crate::vars;

verus! {

/// How many lines of a command's output a callback carries.
pub const OUTPUT_TAIL_LINES: usize = 20;

/// Whether a filter fires for a command.
pub open spec fn fires(
    last: Map<Seq<char>, u64>,
    agent_id: u128,
    params: json::JsonView,
    filter: CallbackFilter,
    now_ms: u64,
) -> bool {
    match tools::tool_of(constants::EVENT_METHOD_ITEM_COMPLETED@, params) {
        Some(tool) => tools::filter_fires(
            last,
            agent_id,
            tool,
            tools::command_matches(tools::command_of(params), filter.command_pattern@),
            filter,
            now_ms,
        ),
        None => false,
    }
}

/// The first filter, from one on, that fires for a command.
pub open spec fn first_firing(
    filters: Seq<CallbackFilter>,
    from: int,
    last: Map<Seq<char>, u64>,
    agent_id: u128,
    params: json::JsonView,
    now_ms: u64,
) -> Option<int>
    decreases filters.len() - from,
{
    if from < 0 || from >= filters.len() {
        None
    } else if fires(last, agent_id, params, filters[from], now_ms) {
        Some(from)
    } else {
        first_firing(filters, from + 1, last, agent_id, params, now_ms)
    }
}

/// What the callback of a filter is told.
pub open spec fn filter_context(
    agent_id: u128,
    job_id: Option<u128>,
    project_id: u128,
    params: json::JsonView,
    filter: CallbackFilter,
    event_id: u128,
    ts: u64,
) -> agent_events::ContextView {
    agent_events::ContextView {
        agent_id,
        thread_id: ""@,
        turn_id: protocol::turn_of(params),
        role: AgentRole::Worker,
        project_id: Some(project_id),
        foreman_id: None,
        job_id,
        method: constants::EVENT_METHOD_ITEM_COMPLETED@,
        ts,
        params: json::JsonView::Object(
            payload::filter_entries(
                agent_id,
                job_id,
                project_id,
                filter.name@,
                tools::tool_of(constants::EVENT_METHOD_ITEM_COMPLETED@, params)->0,
                tools::command_of(params),
                tools::exit_code_of(params),
                tools::output_tail_of(params, OUTPUT_TAIL_LINES),
            ),
        ),
        event_id,
        result_snapshot: None,
        callback: crate::agent::CallbackView::Profile {
            profile: filter.callback_profile@,
            prompt_prefix: None,
            command_args: None,
            events: None,
            vars: Map::empty(),
        },
    }
}

/// A callback that adds nothing to its profile.
pub open spec fn plain_invocation() -> callback::InvocationView {
    callback::InvocationView { prompt_prefix: None, command_args: None, entries: Seq::empty() }
}

/// What is done for a filter that fires.
pub open spec fn filter_delivery(
    c: agent_events::ContextView,
    filter: CallbackFilter,
    service_profiles: Map<Seq<char>, CallbackProfile>,
    project_profiles: Option<Map<Seq<char>, CallbackProfile>>,
    project_env: Seq<(Seq<char>, Seq<char>)>,
    env: Map<Seq<char>, Option<String>>,
) -> Result<callback::DeliveryView, Seq<Seq<char>>> {
    match resolve::found_profile(project_profiles, service_profiles, filter.callback_profile@) {
        None => Err(
            seq![
                callback::quoting(
                    "tool-filter callback profile '"@,
                    filter.callback_profile@,
                    "' is not configured"@,
                ),
            ],
        ),
        Some(profile) => callback::profile_delivery(c, plain_invocation(), profile, project_env, env),
    }
}

/// What is done for a filter that fires.
fn deliver_filter(
    context: &ToolFilterDispatchContext,
    filter: &CallbackFilter,
    tool: String,
    config: &ServiceConfig,
    project_profiles: Option<&TextMap<CallbackProfile>>,
    project_env: &TextMap<String>,
    env: &EnvVars,
    event_id: u128,
    ts: u64,
) -> (r: Result<Delivery, ForemanError>)
    requires
        tools::tool_of(constants::EVENT_METHOD_ITEM_COMPLETED@, context.params@) == Some(tool@),
    ensures
        callback::delivers(
            r,
            filter_delivery(
                filter_context(
                    context.agent_id,
                    context.job_id,
                    context.project_id,
                    context.params@,
                    *filter,
                    event_id,
                    ts,
                ),
                *filter,
                config.callbacks.profiles@,
                resolve::opt_profiles(project_profiles),
                vars::entries_of(*project_env),
                env@,
            ),
        ),
{
    let told = ToolFilterCallbackPayload {
        worker_id: context.agent_id,
        job_id: context.job_id,
        project_id: context.project_id,
        filter_name: filter.name.clone(),
        tool,
        command: parse_command(&context.params),
        exit_code: parse_exit_code(&context.params),
        output_tail: parse_output_tail(&context.params, OUTPUT_TAIL_LINES),
    };
    if resolve_callback_profile(
        config,
        project_profiles,
        filter.callback_profile.as_str(),
    ).is_none() {
        let mut message = "tool-filter callback profile '".to_owned();
        message.append(filter.callback_profile.as_str());
        message.append("' is not configured");
        return Err(ForemanError::new(message));
    }
    let no_vars: TextMap<String> = TextMap::new();
    proof {
        assert(vars::entries_of(no_vars) == Seq::<(Seq<char>, Seq<char>)>::empty());
        assert(vars::values_of(no_vars@) == Map::<Seq<char>, Seq<char>>::empty());
    }
    let chosen = WorkerCallback::Profile(
        WorkerProfileCallback {
            profile: filter.callback_profile.clone(),
            prompt_prefix: None,
            command_args: None,
            events: None,
            vars: no_vars,
        },
    );
    let callback_context = CallbackEventContext {
        agent_id: context.agent_id,
        thread_id: "".to_owned(),
        turn_id: parse_turn_id(&context.params),
        role: AgentRole::Worker,
        project_id: Some(context.project_id),
        foreman_id: None,
        job_id: context.job_id,
        method: constants::EVENT_METHOD_ITEM_COMPLETED.to_owned(),
        ts,
        params: write_filter_payload(&told),
        event_id,
        result_snapshot: None,
        callback: chosen.clone(),
    };
    dispatch_callback(
        &callback_context,
        &chosen,
        true,
        config,
        project_profiles,
        project_env,
        env,
    )
}

/// What is done for the first filter, from one on, that fires for a command, with the position
/// of the filter. The time at which it fires is kept, though what it asks for goes wrong.
pub fn dispatch_tool_filtered_callbacks(
    context: &ToolFilterDispatchContext,
    filters: &Vec<CallbackFilter>,
    from: usize,
    last: &mut TextMap<u64>,
    config: &ServiceConfig,
    project_profiles: Option<&TextMap<CallbackProfile>>,
    project_env: &TextMap<String>,
    env: &EnvVars,
    event_id: u128,
    now_ms: u64,
    ts: u64,
) -> (r: Result<Option<(usize, Delivery)>, ForemanError>)
    ensures
        ({
            let first = first_firing(
                filters@,
                from as int,
                old(last)@,
                context.agent_id,
                context.params@,
                now_ms,
            );
            if tools::tool_of(
                constants::EVENT_METHOD_ITEM_COMPLETED@,
                context.params@,
            ) is None {
                &&& r matches Err(e) && e@ == seq!["missing tool name for command execution event"@]
                &&& *final(last) == *old(last)
            } else {
                match first {
                    None => r matches Ok(None) && *final(last) == *old(last),
                    Some(i) => {
                        &&& final(last)@ == old(last)@.insert(
                            tools::debounce_key(context.agent_id, filters@[i].name@),
                            now_ms,
                        )
                        &&& match filter_delivery(
                            filter_context(
                                context.agent_id,
                                context.job_id,
                                context.project_id,
                                context.params@,
                                filters@[i],
                                event_id,
                                ts,
                            ),
                            filters@[i],
                            config.callbacks.profiles@,
                            resolve::opt_profiles(project_profiles),
                            vars::entries_of(*project_env),
                            env@,
                        ) {
                            Ok(d) => r matches Ok(Some(found)) && found.0 == i && found.1@ == d,
                            Err(chain) => r matches Err(e) && e@ == chain,
                        }
                    },
                }
            }
        }),
{
    let tool = match normalize_tool_name(
        constants::EVENT_METHOD_ITEM_COMPLETED,
        &context.params,
    ) {
        Some(tool) => tool,
        None => {
            return Err(ForemanError::from_text("missing tool name for command execution event"));
        },
    };
    let command = parse_command(&context.params);
    let mut i: usize = from;
    while i < filters.len()
        invariant
            from <= i,
            i <= filters@.len() || i == from,
            *last == *old(last),
            tools::tool_of(constants::EVENT_METHOD_ITEM_COMPLETED@, context.params@) == Some(tool@),
            text::opt_text(command) == tools::command_of(context.params@),
            first_firing(
                filters@,
                from as int,
                old(last)@,
                context.agent_id,
                context.params@,
                now_ms,
            ) == first_firing(
                filters@,
                i as int,
                old(last)@,
                context.agent_id,
                context.params@,
                now_ms,
            ),
        decreases filters@.len() - i,
    {
        let command_text: Option<&str> = match &command {
            Some(c) => Some(c.as_str()),
            None => None,
        };
        if should_fire_tool_filter(
            last,
            context.agent_id,
            tool.as_str(),
            command_text,
            &filters[i],
            now_ms,
        ) {
            let delivery = deliver_filter(
                context,
                &filters[i],
                tool,
                config,
                project_profiles,
                project_env,
                env,
                event_id,
                ts,
            );
            return match delivery {
                Ok(d) => Ok(Some((i, d))),
                Err(e) => Err(e),
            };
        }
        i += 1;
    }
    Ok(None)
}

/// The filter that is taken is the first that fires: none before it does, and where none fires none
/// is taken.
pub proof fn law_first_filter_that_fires_is_taken(
    filters: Seq<CallbackFilter>,
    from: int,
    last: Map<Seq<char>, u64>,
    agent_id: u128,
    params: json::JsonView,
    now_ms: u64,
)
    requires
        0 <= from <= filters.len(),
    ensures
        first_firing(filters, from, last, agent_id, params, now_ms) matches Some(i) ==> from <= i
            < filters.len() && fires(last, agent_id, params, filters[i], now_ms) && forall|j: int|
            from <= j < i ==> !fires(last, agent_id, params, #[trigger] filters[j], now_ms),
        first_firing(filters, from, last, agent_id, params, now_ms) is None ==> forall|j: int|
            from <= j < filters.len() ==> !fires(
                last,
                agent_id,
                params,
                #[trigger] filters[j],
                now_ms,
            ),
    decreases filters.len() - from,
{
    if from < filters.len() && !fires(last, agent_id, params, filters[from], now_ms) {
        law_first_filter_that_fires_is_taken(filters, from + 1, last, agent_id, params, now_ms);
    }
}

/// What a filter tells of a tool is told as an event of the worker in its job and project, with the
/// name of the filter, for the profile of the filter.
pub proof fn law_filters_tell_of_the_worker(
    agent_id: u128,
    job_id: Option<u128>,
    project_id: u128,
    params: json::JsonView,
    filter: CallbackFilter,
    event_id: u128,
    ts: u64,
)
    ensures
        ({
            let c = filter_context(agent_id, job_id, project_id, params, filter, event_id, ts);
            let items = c.params->Object_0;
            &&& c.agent_id == agent_id && c.job_id == job_id && c.project_id == Some(project_id)
            &&& c.method == "item/completed"@ && c.ts == ts && c.event_id == event_id
            &&& c.role == AgentRole::Worker
            &&& c.callback is Profile && c.callback->profile == filter.callback_profile@
            &&& items[0] == (
                "worker_id"@,
                json::JsonView::Text(crate::ids::uuid_text(agent_id)),
            )
            &&& items[2] == (
                "project_id"@,
                json::JsonView::Text(crate::ids::uuid_text(project_id)),
            )
            &&& items[3] == ("filter_name"@, json::JsonView::Text(filter.name@))
            &&& tools::tool_of("item/completed"@, params) is Some ==> items[4] == (
                "tool"@,
                json::JsonView::Text(tools::tool_of("item/completed"@, params)->0),
            )
            &&& tools::command_of(params) is Some ==> items[5] == (
                "command"@,
                json::JsonView::Text(tools::command_of(params)->0),
            )
            &&& tools::exit_code_of(params) is Some ==> items[6] == (
                "exit_code"@,
                json::JsonView::Number(
                    json::NumberView::Whole(tools::exit_code_of(params)->0 as int),
                ),
            )
            &&& items.len() == 8
        }),
{
}

} // verus!

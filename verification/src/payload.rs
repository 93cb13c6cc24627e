//! What callbacks carry: the variables of an event and its payload.
use vstd::prelude::*;

use crate::agent_events;
use crate::agent_events::CallbackEventContext;
use crate::constants;
use crate::ids;
use crate::ids::id_text;
use crate::json;
use crate::json::{Json, JsonNumber};
use crate::json_build;
use crate::json_build::{opt_text_json, push_entry, unsigned_json};
use crate::models;
use crate::models::{AgentResult, ToolFilterCallbackPayload};
use crate::text;
use crate::text_map;
use crate::text_map::TextMap;
use crate::text_search::decimal_text;
use crate::vars;
use crate::vars::set_var;

verus! {

/// Variables with one more, where there is a value for it.
pub open spec fn put_opt(
    v: Seq<(Seq<char>, Seq<char>)>,
    k: Seq<char>,
    value: Option<Seq<char>>,
) -> Seq<(Seq<char>, Seq<char>)> {
    match value {
        Some(t) => text_map::put(v, k, t),
        None => v,
    }
}

/// The variables of an event, over those that are inherited.
pub open spec fn event_vars(
    c: agent_events::ContextView,
    inherited: Seq<(Seq<char>, Seq<char>)>,
) -> Seq<(Seq<char>, Seq<char>)> {
    let v = text_map::put(inherited, constants::CALLBACK_VAR_AGENT_ID@, ids::uuid_text(c.agent_id));
    let v = text_map::put(v, constants::CALLBACK_VAR_WORKER_ID@, ids::uuid_text(c.agent_id));
    let v = text_map::put(v, constants::CALLBACK_VAR_THREAD_ID@, c.thread_id);
    let v = text_map::put(v, constants::CALLBACK_VAR_METHOD@, c.method);
    let v = text_map::put(v, constants::CALLBACK_VAR_EVENT_ID@, ids::uuid_text(c.event_id));
    let v = text_map::put(v, constants::CALLBACK_VAR_ROLE@, crate::agent::role_name(c.role));
    let v = put_opt(v, constants::CALLBACK_VAR_TURN_ID@, c.turn_id);
    let v = put_opt(v, constants::CALLBACK_VAR_PROJECT_ID@, ids::opt_uuid_text(c.project_id));
    let v = put_opt(v, constants::CALLBACK_VAR_FOREMAN_ID@, ids::opt_uuid_text(c.foreman_id));
    let v = text_map::put(v, constants::CALLBACK_VAR_TS@, text::decimal(c.ts as nat));
    text_map::put(
        v,
        constants::CALLBACK_EVENT_TYPE_KEY@,
        constants::CALLBACK_EVENT_TYPE_AGENT_EVENT@,
    )
}

/// The variables of an event, over those that are inherited.
pub fn callback_vars(context: &CallbackEventContext, inherited: TextMap<String>) -> (r: TextMap<
    String,
>)
    ensures
        vars::entries_of(r) == event_vars(context@, vars::entries_of(inherited)),
{
    let mut vars = inherited;
    set_var(&mut vars, constants::CALLBACK_VAR_AGENT_ID, id_text(context.agent_id));
    set_var(&mut vars, constants::CALLBACK_VAR_WORKER_ID, id_text(context.agent_id));
    set_var(&mut vars, constants::CALLBACK_VAR_THREAD_ID, context.thread_id.clone());
    set_var(&mut vars, constants::CALLBACK_VAR_METHOD, context.method.clone());
    set_var(&mut vars, constants::CALLBACK_VAR_EVENT_ID, id_text(context.event_id));
    set_var(&mut vars, constants::CALLBACK_VAR_ROLE, context.role.as_str().to_owned());
    if let Some(turn_id) = &context.turn_id {
        set_var(&mut vars, constants::CALLBACK_VAR_TURN_ID, turn_id.clone());
    }
    if let Some(project_id) = context.project_id {
        set_var(&mut vars, constants::CALLBACK_VAR_PROJECT_ID, id_text(project_id));
    }
    if let Some(foreman_id) = context.foreman_id {
        set_var(&mut vars, constants::CALLBACK_VAR_FOREMAN_ID, id_text(foreman_id));
    }
    set_var(&mut vars, constants::CALLBACK_VAR_TS, decimal_text(context.ts as u128));
    set_var(
        &mut vars,
        constants::CALLBACK_EVENT_TYPE_KEY,
        constants::CALLBACK_EVENT_TYPE_AGENT_EVENT.to_owned(),
    );
    vars
}

/// A list of texts as a value.
pub open spec fn texts_json(v: Seq<Seq<char>>) -> json::JsonView {
    json::JsonView::List(v.map_values(|t: Seq<char>| json::JsonView::Text(t)))
}

/// A list of texts as a value.
pub fn write_texts(v: &Vec<String>) -> (r: Json)
    ensures
        r@ == texts_json(text::texts(v@)),
{
    let mut items: Vec<Json> = Vec::new();
    let mut i: usize = 0;
    while i < v.len()
        invariant
            i <= v@.len(),
            items@.len() == i,
            forall|k: int| 0 <= k < i ==> (#[trigger] items@[k])@ == json::JsonView::Text(v@[k]@),
        decreases v@.len() - i,
    {
        items.push(Json::Text(v[i].clone()));
        i += 1;
    }
    let ghost all = items@;
    let r = Json::List(items);
    proof {
        json::lemma_list_model(all);
        assert(json::list_model(all) == text::texts(v@).map_values(
            |t: Seq<char>| json::JsonView::Text(t),
        ));
    }
    r
}

/// A number, or null where there is none.
pub open spec fn whole_or_null(n: Option<u64>) -> json::JsonView {
    match n {
        Some(v) => json_build::whole(v as int),
        None => json::JsonView::Null,
    }
}

/// A number, or null where there is none.
pub fn opt_unsigned_json(n: Option<u64>) -> (r: Json)
    ensures
        r@ == whole_or_null(n),
{
    match n {
        Some(v) => unsigned_json(v),
        None => Json::Null,
    }
}

/// An identifier as a text, or null where there is none.
pub fn opt_id_json(id: Option<u128>) -> (r: Json)
    ensures
        r@ == json_build::text_or_null(ids::opt_uuid_text(id)),
{
    match id {
        Some(v) => Json::Text(id_text(v)),
        None => Json::Null,
    }
}

/// The entries of a result's value.
pub open spec fn result_entries(r: models::ResultView) -> Seq<(Seq<char>, json::JsonView)> {
    seq![
        ("agent_id"@, json::JsonView::Text(ids::uuid_text(r.agent_id))),
        ("status"@, json::JsonView::Text(r.status)),
        ("completion_method"@, json_build::text_or_null(r.completion_method)),
        ("turn_id"@, json_build::text_or_null(r.turn_id)),
        ("final_text"@, json_build::text_or_null(r.final_text)),
        ("summary"@, json_build::text_or_null(r.summary)),
        (
            "references"@,
            match r.references {
                Some(list) => texts_json(list),
                None => json::JsonView::Null,
            },
        ),
        ("completed_at"@, whole_or_null(r.completed_at)),
        ("event_id"@, json_build::text_or_null(ids::opt_uuid_text(r.event_id))),
        ("error"@, json_build::text_or_null(r.error)),
    ]
}

/// A result as a value.
pub open spec fn result_json(r: models::ResultView) -> json::JsonView {
    json::JsonView::Object(result_entries(r))
}

/// A result as a value.
pub fn write_result(result: &AgentResult) -> (r: Json)
    ensures
        r@ == result_json(result@),
{
    let mut items: Vec<(String, Json)> = Vec::new();
    assert(json::entries_model(items@) == Seq::<(Seq<char>, json::JsonView)>::empty());
    push_entry(&mut items, "agent_id", Json::Text(id_text(result.agent_id)));
    push_entry(&mut items, "status", Json::Text(result.status.clone()));
    push_entry(&mut items, "completion_method", opt_text_json(&result.completion_method));
    push_entry(&mut items, "turn_id", opt_text_json(&result.turn_id));
    push_entry(&mut items, "final_text", opt_text_json(&result.final_text));
    push_entry(&mut items, "summary", opt_text_json(&result.summary));
    let references = match &result.references {
        Some(list) => write_texts(list),
        None => Json::Null,
    };
    push_entry(&mut items, "references", references);
    push_entry(&mut items, "completed_at", opt_unsigned_json(result.completed_at));
    push_entry(&mut items, "event_id", opt_id_json(result.event_id));
    push_entry(&mut items, "error", opt_text_json(&result.error));
    assert(json::entries_model(items@) == result_entries(result@));
    Json::Object(items)
}

/// Variables as a value.
pub open spec fn vars_json(entries: Seq<(Seq<char>, Seq<char>)>) -> json::JsonView {
    json::JsonView::Object(
        entries.map_values(|e: (Seq<char>, Seq<char>)| (e.0, json::JsonView::Text(e.1))),
    )
}

/// Variables as a value.
pub fn write_vars(vars: &TextMap<String>) -> (r: Json)
    ensures
        r@ == vars_json(vars::entries_of(*vars)),
{
    let ghost all = vars::entries_of(*vars);
    let n: usize = vars.len();
    let mut items: Vec<(String, Json)> = Vec::new();
    let mut i: usize = 0;
    assert(json::entries_model(items@) == Seq::<(Seq<char>, json::JsonView)>::empty());
    while i < n
        invariant
            i <= n,
            n == vars.items().len(),
            all == vars::entries_of(*vars),
            json::entries_model(items@) == all.take(i as int).map_values(
                |e: (Seq<char>, Seq<char>)| (e.0, json::JsonView::Text(e.1)),
            ),
        decreases n - i,
    {
        push_entry(&mut items, vars.key_at(i).as_str(), Json::Text(vars.value_at(i).clone()));
        assert(json::entries_model(items@) == all.take(i + 1).map_values(
            |e: (Seq<char>, Seq<char>)| (e.0, json::JsonView::Text(e.1)),
        ));
        i += 1;
    }
    assert(all.take(n as int) == all);
    Json::Object(items)
}

/// The entries that every payload has.
pub open spec fn first_entries(c: agent_events::ContextView) -> Seq<(Seq<char>, json::JsonView)> {
    seq![
        (constants::CALLBACK_VAR_AGENT_ID@, json::JsonView::Text(ids::uuid_text(c.agent_id))),
        (constants::CALLBACK_VAR_THREAD_ID@, json::JsonView::Text(c.thread_id)),
        (constants::CALLBACK_VAR_TURN_ID@, json_build::text_or_null(c.turn_id)),
        (constants::CALLBACK_VAR_EVENT_ID@, json::JsonView::Text(ids::uuid_text(c.event_id))),
        (constants::CALLBACK_VAR_TS@, json_build::whole(c.ts as int)),
        (constants::CALLBACK_VAR_METHOD@, json::JsonView::Text(c.method)),
        ("params"@, c.params),
        (constants::CALLBACK_VAR_ROLE@, json::JsonView::Text(crate::agent::role_name(c.role))),
    ]
}

/// Entries with one more, where there is a value for it.
pub open spec fn with_entry(
    entries: Seq<(Seq<char>, json::JsonView)>,
    k: Seq<char>,
    v: Option<json::JsonView>,
) -> Seq<(Seq<char>, json::JsonView)> {
    match v {
        Some(v) => entries.push((k, v)),
        None => entries,
    }
}

/// The text of an optional identifier as a value.
pub open spec fn id_value(id: Option<u128>) -> Option<json::JsonView> {
    match id {
        Some(v) => Some(json::JsonView::Text(ids::uuid_text(v))),
        None => None,
    }
}

/// The payload of an event.
pub open spec fn base_payload(
    c: agent_events::ContextView,
    extra_vars: Option<Seq<(Seq<char>, Seq<char>)>>,
) -> json::JsonView {
    let e = with_entry(first_entries(c), constants::CALLBACK_VAR_PROJECT_ID@, id_value(c.project_id));
    let e = with_entry(e, constants::CALLBACK_VAR_FOREMAN_ID@, id_value(c.foreman_id));
    let e = with_entry(
        e,
        constants::CALLBACK_VAR_RESULT@,
        match c.result_snapshot {
            Some(r) => Some(result_json(r)),
            None => None,
        },
    );
    json::JsonView::Object(
        with_entry(
            e,
            constants::CALLBACK_VAR_CALLBACK_VARS@,
            match extra_vars {
                Some(v) => Some(vars_json(v)),
                None => None,
            },
        ),
    )
}

/// The payload of an event.
pub fn build_base_payload(context: &CallbackEventContext, extra_vars: Option<&TextMap<String>>) -> (r:
    Json)
    ensures
        r@ == base_payload(
            context@,
            match extra_vars {
                Some(v) => Some(vars::entries_of(*v)),
                None => None,
            },
        ),
{
    let mut items: Vec<(String, Json)> = Vec::new();
    assert(json::entries_model(items@) == Seq::<(Seq<char>, json::JsonView)>::empty());
    push_entry(
        &mut items,
        constants::CALLBACK_VAR_AGENT_ID,
        Json::Text(id_text(context.agent_id)),
    );
    push_entry(
        &mut items,
        constants::CALLBACK_VAR_THREAD_ID,
        Json::Text(context.thread_id.clone()),
    );
    push_entry(&mut items, constants::CALLBACK_VAR_TURN_ID, opt_text_json(&context.turn_id));
    push_entry(
        &mut items,
        constants::CALLBACK_VAR_EVENT_ID,
        Json::Text(id_text(context.event_id)),
    );
    push_entry(&mut items, constants::CALLBACK_VAR_TS, unsigned_json(context.ts));
    push_entry(&mut items, constants::CALLBACK_VAR_METHOD, Json::Text(context.method.clone()));
    push_entry(&mut items, "params", context.params.clone());
    push_entry(
        &mut items,
        constants::CALLBACK_VAR_ROLE,
        Json::Text(context.role.as_str().to_owned()),
    );
    assert(json::entries_model(items@) == first_entries(context@));
    if let Some(project_id) = context.project_id {
        push_entry(
            &mut items,
            constants::CALLBACK_VAR_PROJECT_ID,
            Json::Text(id_text(project_id)),
        );
    }
    if let Some(foreman_id) = context.foreman_id {
        push_entry(
            &mut items,
            constants::CALLBACK_VAR_FOREMAN_ID,
            Json::Text(id_text(foreman_id)),
        );
    }
    if let Some(result) = &context.result_snapshot {
        push_entry(&mut items, constants::CALLBACK_VAR_RESULT, write_result(result));
    }
    if let Some(vars) = extra_vars {
        push_entry(&mut items, constants::CALLBACK_VAR_CALLBACK_VARS, write_vars(vars));
    }
    Json::Object(items)
}

/// The entries of what a tool's callback carries.
pub open spec fn filter_entries(
    worker_id: u128,
    job_id: Option<u128>,
    project_id: u128,
    filter_name: Seq<char>,
    tool: Seq<char>,
    command: Option<Seq<char>>,
    exit_code: Option<i32>,
    output_tail: Option<Seq<char>>,
) -> Seq<(Seq<char>, json::JsonView)> {
    seq![
        ("worker_id"@, json::JsonView::Text(ids::uuid_text(worker_id))),
        ("job_id"@, json_build::text_or_null(ids::opt_uuid_text(job_id))),
        ("project_id"@, json::JsonView::Text(ids::uuid_text(project_id))),
        ("filter_name"@, json::JsonView::Text(filter_name)),
        ("tool"@, json::JsonView::Text(tool)),
        ("command"@, json_build::text_or_null(command)),
        (
            "exit_code"@,
            match exit_code {
                Some(n) => json_build::whole(n as int),
                None => json::JsonView::Null,
            },
        ),
        ("output_tail"@, json_build::text_or_null(output_tail)),
    ]
}

/// The entries of what a tool's callback carries.
pub open spec fn filter_payload_entries(p: ToolFilterCallbackPayload) -> Seq<
    (Seq<char>, json::JsonView),
> {
    filter_entries(
        p.worker_id,
        p.job_id,
        p.project_id,
        p.filter_name@,
        p.tool@,
        text::opt_text(p.command),
        p.exit_code,
        text::opt_text(p.output_tail),
    )
}

/// A whole number as a value.
pub fn signed_json(n: i64) -> (r: Json)
    ensures
        r@ == json_build::whole(n as int),
{
    if n < 0 {
        Json::Number(JsonNumber::Negative(n))
    } else {
        Json::Number(JsonNumber::Unsigned(n as u64))
    }
}

/// What a tool's callback carries, as a value.
pub fn write_filter_payload(p: &ToolFilterCallbackPayload) -> (r: Json)
    ensures
        r@ == json::JsonView::Object(filter_payload_entries(*p)),
{
    let mut items: Vec<(String, Json)> = Vec::new();
    assert(json::entries_model(items@) == Seq::<(Seq<char>, json::JsonView)>::empty());
    push_entry(&mut items, "worker_id", Json::Text(id_text(p.worker_id)));
    push_entry(&mut items, "job_id", opt_id_json(p.job_id));
    push_entry(&mut items, "project_id", Json::Text(id_text(p.project_id)));
    push_entry(&mut items, "filter_name", Json::Text(p.filter_name.clone()));
    push_entry(&mut items, "tool", Json::Text(p.tool.clone()));
    push_entry(&mut items, "command", opt_text_json(&p.command));
    let exit_code = match p.exit_code {
        Some(n) => signed_json(n as i64),
        None => Json::Null,
    };
    push_entry(&mut items, "exit_code", exit_code);
    push_entry(&mut items, "output_tail", opt_text_json(&p.output_tail));
    assert(json::entries_model(items@) == filter_payload_entries(*p));
    Json::Object(items)
}

proof fn lemma_entry_at(items: Seq<(Seq<char>, json::JsonView)>, key: Seq<char>, at: int)
    requires
        0 <= at < items.len(),
        items[at].0 == key,
        forall|j: int| 0 <= j < at ==> (#[trigger] items[j]).0 != key,
    ensures
        json::entry_value(items, key) == Some(items[at].1),
    decreases at,
{
    if at > 0 {
        assert(items[0].0 != key);
        let rest = items.skip(1);
        assert forall|j: int| 0 <= j < at - 1 implies (#[trigger] rest[j]).0 != key by {
            assert(rest[j] == items[j + 1]);
        }
        lemma_entry_at(rest, key, at - 1);
    }
}

proof fn lemma_no_entry(items: Seq<(Seq<char>, json::JsonView)>, key: Seq<char>)
    requires
        forall|j: int| 0 <= j < items.len() ==> (#[trigger] items[j]).0 != key,
    ensures
        json::entry_value(items, key) is None,
    decreases items.len(),
{
    if items.len() > 0 {
        assert(items[0].0 != key);
        let rest = items.skip(1);
        assert forall|j: int| 0 <= j < rest.len() implies (#[trigger] rest[j]).0 != key by {
            assert(rest[j] == items[j + 1]);
        }
        lemma_no_entry(rest, key);
    }
}

/// The payload of an event says whose event it is, what happened and with what, and carries the
/// result of the agent and the variables exactly where there are any.
pub proof fn law_payload_tells_the_event_and_the_result(
    c: agent_events::ContextView,
    extra_vars: Option<Seq<(Seq<char>, Seq<char>)>>,
)
    ensures
        json::member(base_payload(c, extra_vars), "agent_id"@) == Some(
            json::JsonView::Text(ids::uuid_text(c.agent_id)),
        ),
        json::member(base_payload(c, extra_vars), "thread_id"@) == Some(
            json::JsonView::Text(c.thread_id),
        ),
        json::member(base_payload(c, extra_vars), "method"@) == Some(
            json::JsonView::Text(c.method),
        ),
        json::member(base_payload(c, extra_vars), "params"@) == Some(c.params),
        json::member(base_payload(c, extra_vars), "result"@) == (match c.result_snapshot {
            Some(r) => Some(result_json(r)),
            None => None,
        }),
        json::member(base_payload(c, extra_vars), "callback_vars"@) == (match extra_vars {
            Some(v) => Some(vars_json(v)),
            None => None,
        }),
{
    reveal_strlit("agent_id");
    reveal_strlit("thread_id");
    reveal_strlit("turn_id");
    reveal_strlit("event_id");
    reveal_strlit("ts");
    reveal_strlit("method");
    reveal_strlit("params");
    reveal_strlit("agent_role");
    reveal_strlit("project_id");
    reveal_strlit("foreman_id");
    reveal_strlit("result");
    reveal_strlit("callback_vars");
    let items = match base_payload(c, extra_vars) {
        json::JsonView::Object(items) => items,
        _ => Seq::empty(),
    };
    assert(items.len() >= 8);
    assert(items.take(8) == first_entries(c));
    assert forall|j: int| 0 <= j < 8 implies #[trigger] items[j] == first_entries(c)[j] by {
        assert(items[j] == items.take(8)[j]);
    }
    assert("agent_id"@[0] == 'a' && "agent_id"@.len() == 8);
    assert("thread_id"@.len() == 9);
    assert("turn_id"@.len() == 7);
    assert("event_id"@.len() == 8 && "event_id"@[0] == 'e');
    assert("ts"@.len() == 2);
    assert("method"@.len() == 6 && "method"@[0] == 'm');
    assert("params"@.len() == 6 && "params"@[0] == 'p');
    assert("agent_role"@.len() == 10 && "agent_role"@[0] == 'a');
    assert("result"@.len() == 6 && "result"@[0] == 'r');
    assert("project_id"@.len() == 10);
    assert("foreman_id"@.len() == 10);
    assert("callback_vars"@.len() == 13);
    lemma_entry_at(items, "agent_id"@, 0);
    lemma_entry_at(items, "thread_id"@, 1);
    lemma_entry_at(items, "method"@, 5);
    lemma_entry_at(items, "params"@, 6);
    let at = 8 + (if c.project_id is Some {
        1int
    } else {
        0
    }) + (if c.foreman_id is Some {
        1int
    } else {
        0
    });
    if c.result_snapshot is Some {
        lemma_entry_at(items, "result"@, at);
    } else {
        lemma_no_entry(items, "result"@);
    }
    if extra_vars is Some {
        lemma_entry_at(items, "callback_vars"@, items.len() - 1);
    } else {
        lemma_no_entry(items, "callback_vars"@);
    }
}

proof fn lemma_vars_json(entries: Seq<(Seq<char>, Seq<char>)>, key: Seq<char>)
    ensures
        json::member(vars_json(entries), key) == (match text_map::value_of(entries, key) {
            Some(t) => Some(json::JsonView::Text(t)),
            None => None,
        }),
    decreases entries.len(),
{
    let items = entries.map_values(
        |e: (Seq<char>, Seq<char>)| (e.0, json::JsonView::Text(e.1)),
    );
    if entries.len() > 0 {
        text_map::lemma_value_at_front(entries, key);
        lemma_vars_json(entries.skip(1), key);
        assert(items.skip(1) == entries.skip(1).map_values(
            |e: (Seq<char>, Seq<char>)| (e.0, json::JsonView::Text(e.1)),
        ));
    }
}

/// Whatever variables are inherited, those of an event name its agent, its thread and what
/// happened.
pub proof fn law_variables_name_the_event(
    c: agent_events::ContextView,
    inherited: Seq<(Seq<char>, Seq<char>)>,
)
    ensures
        json::member(vars_json(event_vars(c, inherited)), "agent_id"@) == Some(
            json::JsonView::Text(ids::uuid_text(c.agent_id)),
        ),
        json::member(vars_json(event_vars(c, inherited)), "thread_id"@) == Some(
            json::JsonView::Text(c.thread_id),
        ),
        json::member(vars_json(event_vars(c, inherited)), "method"@) == Some(
            json::JsonView::Text(c.method),
        ),
{
    reveal_strlit("agent_id");
    reveal_strlit("thread_id");
    reveal_strlit("method");
    assert("agent_id"@.len() == 8 && "thread_id"@.len() == 9 && "method"@.len() == 6);
    lemma_event_var(c, inherited, "agent_id"@);
    lemma_event_var(c, inherited, "thread_id"@);
    lemma_event_var(c, inherited, "method"@);
    lemma_vars_json(event_vars(c, inherited), "agent_id"@);
    lemma_vars_json(event_vars(c, inherited), "thread_id"@);
    lemma_vars_json(event_vars(c, inherited), "method"@);
}

proof fn lemma_event_var(
    c: agent_events::ContextView,
    inherited: Seq<(Seq<char>, Seq<char>)>,
    key: Seq<char>,
)
    requires
        key == "agent_id"@ || key == "thread_id"@ || key == "method"@,
    ensures
        text_map::value_of(event_vars(c, inherited), key) == Some(
            if key == "agent_id"@ {
                ids::uuid_text(c.agent_id)
            } else if key == "thread_id"@ {
                c.thread_id
            } else {
                c.method
            },
        ),
{
    reveal_strlit("agent_id");
    reveal_strlit("worker_id");
    reveal_strlit("thread_id");
    reveal_strlit("method");
    reveal_strlit("event_id");
    reveal_strlit("agent_role");
    reveal_strlit("turn_id");
    reveal_strlit("project_id");
    reveal_strlit("foreman_id");
    reveal_strlit("ts");
    reveal_strlit("callback_type");
    assert("agent_id"@.len() == 8 && "agent_id"@[0] == 'a');
    assert("worker_id"@.len() == 9 && "worker_id"@[0] == 'w');
    assert("thread_id"@.len() == 9 && "thread_id"@[0] == 't');
    assert("method"@.len() == 6);
    assert("event_id"@.len() == 8 && "event_id"@[0] == 'e');
    assert("agent_role"@.len() == 10);
    assert("turn_id"@.len() == 7);
    assert("project_id"@.len() == 10);
    assert("foreman_id"@.len() == 10);
    assert("ts"@.len() == 2);
    assert("callback_type"@.len() == 13);
    let v0 = inherited;
    let v1 = text_map::put(v0, constants::CALLBACK_VAR_AGENT_ID@, ids::uuid_text(c.agent_id));
    let v2 = text_map::put(v1, constants::CALLBACK_VAR_WORKER_ID@, ids::uuid_text(c.agent_id));
    let v3 = text_map::put(v2, constants::CALLBACK_VAR_THREAD_ID@, c.thread_id);
    let v4 = text_map::put(v3, constants::CALLBACK_VAR_METHOD@, c.method);
    let v5 = text_map::put(v4, constants::CALLBACK_VAR_EVENT_ID@, ids::uuid_text(c.event_id));
    let v6 = text_map::put(v5, constants::CALLBACK_VAR_ROLE@, crate::agent::role_name(c.role));
    let v7 = put_opt(v6, constants::CALLBACK_VAR_TURN_ID@, c.turn_id);
    let v8 = put_opt(v7, constants::CALLBACK_VAR_PROJECT_ID@, ids::opt_uuid_text(c.project_id));
    let v9 = put_opt(v8, constants::CALLBACK_VAR_FOREMAN_ID@, ids::opt_uuid_text(c.foreman_id));
    let v10 = text_map::put(v9, constants::CALLBACK_VAR_TS@, text::decimal(c.ts as nat));
    text_map::lemma_value_put(
        v0,
        constants::CALLBACK_VAR_AGENT_ID@,
        ids::uuid_text(c.agent_id),
        key,
    );
    text_map::lemma_value_put(
        v1,
        constants::CALLBACK_VAR_WORKER_ID@,
        ids::uuid_text(c.agent_id),
        key,
    );
    text_map::lemma_value_put(v2, constants::CALLBACK_VAR_THREAD_ID@, c.thread_id, key);
    text_map::lemma_value_put(v3, constants::CALLBACK_VAR_METHOD@, c.method, key);
    text_map::lemma_value_put(
        v4,
        constants::CALLBACK_VAR_EVENT_ID@,
        ids::uuid_text(c.event_id),
        key,
    );
    text_map::lemma_value_put(
        v5,
        constants::CALLBACK_VAR_ROLE@,
        crate::agent::role_name(c.role),
        key,
    );
    if let Some(t) = c.turn_id {
        text_map::lemma_value_put(v6, constants::CALLBACK_VAR_TURN_ID@, t, key);
    }
    if let Some(t) = ids::opt_uuid_text(c.project_id) {
        text_map::lemma_value_put(v7, constants::CALLBACK_VAR_PROJECT_ID@, t, key);
    }
    if let Some(t) = ids::opt_uuid_text(c.foreman_id) {
        text_map::lemma_value_put(v8, constants::CALLBACK_VAR_FOREMAN_ID@, t, key);
    }
    text_map::lemma_value_put(
        v9,
        constants::CALLBACK_VAR_TS@,
        text::decimal(c.ts as nat),
        key,
    );
    text_map::lemma_value_put(
        v10,
        constants::CALLBACK_EVENT_TYPE_KEY@,
        constants::CALLBACK_EVENT_TYPE_AGENT_EVENT@,
        key,
    );
}

/// The variables of an event say of whom, of what and when it is, over what was there under their
/// names; every other variable stays.
pub proof fn law_variables_tell_the_event(
    c: agent_events::ContextView,
    inherited: Seq<(Seq<char>, Seq<char>)>,
    other: Seq<char>,
)
    ensures
        ({
            let v = event_vars(c, inherited);
            &&& text_map::value_of(v, "worker_id"@) == Some(ids::uuid_text(c.agent_id))
            &&& text_map::value_of(v, "event_id"@) == Some(ids::uuid_text(c.event_id))
            &&& text_map::value_of(v, "ts"@) == Some(text::decimal(c.ts as nat))
            &&& text_map::value_of(v, "callback_type"@) == Some("agent-event"@)
            &&& text_map::value_of(v, "agent_role"@) == Some(
                match c.role {
                    crate::agent::AgentRole::Foreman => "foreman"@,
                    crate::agent::AgentRole::Worker => "worker"@,
                    crate::agent::AgentRole::Standalone => "standalone"@,
                },
            )
            &&& c.turn_id is Some ==> text_map::value_of(v, "turn_id"@) == c.turn_id
            &&& c.project_id is Some ==> text_map::value_of(v, "project_id"@) == Some(
                ids::uuid_text(c.project_id->0),
            )
            &&& c.foreman_id is Some ==> text_map::value_of(v, "foreman_id"@) == Some(
                ids::uuid_text(c.foreman_id->0),
            )
            &&& !seq![
                "agent_id"@,
                "worker_id"@,
                "thread_id"@,
                "method"@,
                "event_id"@,
                "agent_role"@,
                "turn_id"@,
                "project_id"@,
                "foreman_id"@,
                "ts"@,
                "callback_type"@,
            ].contains(other) ==> text_map::value_of(v, other) == text_map::value_of(
                inherited,
                other,
            )
        }),
{
    lemma_var_of_event(c, inherited, "worker_id"@);
    lemma_var_of_event(c, inherited, "event_id"@);
    lemma_var_of_event(c, inherited, "ts"@);
    lemma_var_of_event(c, inherited, "callback_type"@);
    lemma_var_of_event(c, inherited, "agent_role"@);
    lemma_var_of_event(c, inherited, "turn_id"@);
    lemma_var_of_event(c, inherited, "project_id"@);
    lemma_var_of_event(c, inherited, "foreman_id"@);
    lemma_var_of_event(c, inherited, other);
    reveal_strlit("agent_id");
    reveal_strlit("worker_id");
    reveal_strlit("thread_id");
    reveal_strlit("method");
    reveal_strlit("event_id");
    reveal_strlit("agent_role");
    reveal_strlit("turn_id");
    reveal_strlit("project_id");
    reveal_strlit("foreman_id");
    reveal_strlit("ts");
    reveal_strlit("callback_type");
    assert("agent_id"@.len() == 8 && "agent_id"@[0] == 'a');
    assert("worker_id"@.len() == 9 && "worker_id"@[0] == 'w');
    assert("thread_id"@.len() == 9 && "thread_id"@[0] == 't');
    assert("method"@.len() == 6);
    assert("event_id"@.len() == 8 && "event_id"@[0] == 'e');
    assert("agent_role"@.len() == 10 && "agent_role"@[0] == 'a');
    assert("turn_id"@.len() == 7);
    assert("project_id"@.len() == 10 && "project_id"@[0] == 'p');
    assert("foreman_id"@.len() == 10 && "foreman_id"@[0] == 'f');
    assert("ts"@.len() == 2);
    assert("callback_type"@.len() == 13);
    let names = seq![
        "agent_id"@,
        "worker_id"@,
        "thread_id"@,
        "method"@,
        "event_id"@,
        "agent_role"@,
        "turn_id"@,
        "project_id"@,
        "foreman_id"@,
        "ts"@,
        "callback_type"@,
    ];
    if !names.contains(other) {
        assert(names[0] != other && names[1] != other && names[2] != other && names[3] != other
            && names[4] != other && names[5] != other && names[6] != other && names[7] != other
            && names[8] != other && names[9] != other && names[10] != other);
    }
}

proof fn lemma_var_of_event(
    c: agent_events::ContextView,
    inherited: Seq<(Seq<char>, Seq<char>)>,
    key: Seq<char>,
)
    ensures
        text_map::value_of(event_vars(c, inherited), key) == (if key == "callback_type"@ {
            Some("agent-event"@)
        } else if key == "ts"@ {
            Some(text::decimal(c.ts as nat))
        } else if key == "foreman_id"@ && c.foreman_id is Some {
            Some(ids::uuid_text(c.foreman_id->0))
        } else if key == "project_id"@ && c.project_id is Some {
            Some(ids::uuid_text(c.project_id->0))
        } else if key == "turn_id"@ && c.turn_id is Some {
            c.turn_id
        } else if key == "agent_role"@ {
            Some(crate::agent::role_name(c.role))
        } else if key == "event_id"@ {
            Some(ids::uuid_text(c.event_id))
        } else if key == "method"@ {
            Some(c.method)
        } else if key == "thread_id"@ {
            Some(c.thread_id)
        } else if key == "worker_id"@ || key == "agent_id"@ {
            Some(ids::uuid_text(c.agent_id))
        } else {
            text_map::value_of(inherited, key)
        }),
{
    let v0 = inherited;
    let v1 = text_map::put(v0, constants::CALLBACK_VAR_AGENT_ID@, ids::uuid_text(c.agent_id));
    let v2 = text_map::put(v1, constants::CALLBACK_VAR_WORKER_ID@, ids::uuid_text(c.agent_id));
    let v3 = text_map::put(v2, constants::CALLBACK_VAR_THREAD_ID@, c.thread_id);
    let v4 = text_map::put(v3, constants::CALLBACK_VAR_METHOD@, c.method);
    let v5 = text_map::put(v4, constants::CALLBACK_VAR_EVENT_ID@, ids::uuid_text(c.event_id));
    let v6 = text_map::put(v5, constants::CALLBACK_VAR_ROLE@, crate::agent::role_name(c.role));
    let v7 = put_opt(v6, constants::CALLBACK_VAR_TURN_ID@, c.turn_id);
    let v8 = put_opt(v7, constants::CALLBACK_VAR_PROJECT_ID@, ids::opt_uuid_text(c.project_id));
    let v9 = put_opt(v8, constants::CALLBACK_VAR_FOREMAN_ID@, ids::opt_uuid_text(c.foreman_id));
    let v10 = text_map::put(v9, constants::CALLBACK_VAR_TS@, text::decimal(c.ts as nat));
    text_map::lemma_value_put(v0, "agent_id"@, ids::uuid_text(c.agent_id), key);
    text_map::lemma_value_put(v1, "worker_id"@, ids::uuid_text(c.agent_id), key);
    text_map::lemma_value_put(v2, "thread_id"@, c.thread_id, key);
    text_map::lemma_value_put(v3, "method"@, c.method, key);
    text_map::lemma_value_put(v4, "event_id"@, ids::uuid_text(c.event_id), key);
    text_map::lemma_value_put(v5, "agent_role"@, crate::agent::role_name(c.role), key);
    if c.turn_id is Some {
        text_map::lemma_value_put(v6, "turn_id"@, c.turn_id->0, key);
    }
    if c.project_id is Some {
        text_map::lemma_value_put(v7, "project_id"@, ids::uuid_text(c.project_id->0), key);
    }
    if c.foreman_id is Some {
        text_map::lemma_value_put(v8, "foreman_id"@, ids::uuid_text(c.foreman_id->0), key);
    }
    text_map::lemma_value_put(v9, "ts"@, text::decimal(c.ts as nat), key);
    text_map::lemma_value_put(v10, "callback_type"@, "agent-event"@, key);
}

/// The payload names the project, the foreman and the variables where there are any, and says
/// nothing of those that there are not.
pub proof fn law_payload_names_what_there_is(
    c: agent_events::ContextView,
    extra_vars: Option<Seq<(Seq<char>, Seq<char>)>>,
)
    ensures
        ({
            let items = base_payload(c, extra_vars)->Object_0;
            &&& base_payload(c, extra_vars) is Object
            &&& c.project_id is Some ==> items.contains(
                ("project_id"@, json::JsonView::Text(ids::uuid_text(c.project_id->0))),
            )
            &&& c.foreman_id is Some ==> items.contains(
                ("foreman_id"@, json::JsonView::Text(ids::uuid_text(c.foreman_id->0))),
            )
            &&& extra_vars is Some ==> items.last() == ("callback_vars"@, vars_json(extra_vars->0))
            &&& items.contains(("event_id"@, json::JsonView::Text(ids::uuid_text(c.event_id))))
            &&& items.contains(("ts"@, json_build::whole(c.ts as int)))
            &&& items.len() == 8 + (if c.project_id is Some { 1int } else { 0 }) + (if c.foreman_id
                is Some { 1int } else { 0 }) + (if c.result_snapshot is Some { 1int } else { 0 })
                + (if extra_vars is Some { 1int } else { 0 })
        }),
{
    let items = base_payload(c, extra_vars)->Object_0;
    assert(items[3] == first_entries(c)[3]);
    assert(items[4] == first_entries(c)[4]);
    if c.project_id is Some {
        assert(items[8] == ("project_id"@, json::JsonView::Text(ids::uuid_text(c.project_id->0))));
    }
    if c.foreman_id is Some {
        let at: int = if c.project_id is Some {
            9
        } else {
            8
        };
        assert(items[at] == ("foreman_id"@, json::JsonView::Text(ids::uuid_text(c.foreman_id->0))));
    }
}

/// The record of a result says what the result says, field by field, in this order.
pub proof fn law_result_records_say_what_the_result_says(r: models::ResultView)
    ensures
        ({
            let items = result_entries(r);
            &&& items.len() == 10
            &&& items[0] == ("agent_id"@, json::JsonView::Text(ids::uuid_text(r.agent_id)))
            &&& items[1] == ("status"@, json::JsonView::Text(r.status))
            &&& r.final_text is Some ==> items[4] == (
                "final_text"@,
                json::JsonView::Text(r.final_text->0),
            )
            &&& r.final_text is None ==> items[4] == ("final_text"@, json::JsonView::Null)
            &&& r.summary is Some ==> items[5] == ("summary"@, json::JsonView::Text(r.summary->0))
            &&& r.completed_at is Some ==> items[7] == (
                "completed_at"@,
                json::JsonView::Number(json::NumberView::Whole(r.completed_at->0 as int)),
            )
            &&& r.completed_at is None ==> items[7] == ("completed_at"@, json::JsonView::Null)
            &&& r.error is Some ==> items[9] == ("error"@, json::JsonView::Text(r.error->0))
            &&& r.error is None ==> items[9] == ("error"@, json::JsonView::Null)
            &&& r.completion_method is Some ==> items[2] == (
                "completion_method"@,
                json::JsonView::Text(r.completion_method->0),
            )
            &&& r.turn_id is Some ==> items[3] == ("turn_id"@, json::JsonView::Text(r.turn_id->0))
        }),
{
}

} // verus!

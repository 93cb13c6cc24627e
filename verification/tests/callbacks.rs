use codex_foreman::agent::{
    AgentRole, WorkerCallback, WorkerProfileCallback, WorkerUnixSocketCallback,
    WorkerWebhookCallback,
};
use codex_foreman::agent_events::{CallbackEventContext, ToolFilterDispatchContext};
use codex_foreman::callback::{dispatch_callback, Delivery};
use codex_foreman::config::{
    CallbackFilter, CallbackProfile, CommandCallbackProfile, ServiceConfig,
    UnixSocketCallbackProfile, WebhookCallbackProfile,
};
use codex_foreman::error::ForemanError;
use codex_foreman::job_status::{job_completed_event, job_event};
use codex_foreman::json::Json;
use codex_foreman::json_text::{json_compact_value, parse_json};
use codex_foreman::models::{
    AgentResult, CallbackOverrides, SendAgentInput, SpawnProjectRequest,
};
use codex_foreman::project::{CallbackSpec, ProjectConfig, ProjectRuntimeFiles};
use codex_foreman::projects::{
    bubble_up, check_project_callbacks, compact_context, compact_request, create_project,
    dispatch_project_lifecycle_callback, execute_project_worker_callback,
    finish_project_lifecycle_callback, get_project_callback_status, initial_prompt,
    resolve_project_path, start_context, stop_context, ProjectRecord,
};
use codex_foreman::resolve::{
    resolve_callback, resolve_callback_for_send, resolve_project_callback_spec,
    CallbackResolutionParams, EnvVars,
};
use codex_foreman::text_map::TextMap;
use codex_foreman::tool_callback::dispatch_tool_filtered_callbacks;

const AGENT: &str = "00000000-0000-0000-0000-000000000005";
const EVENT: &str = "00000000-0000-0000-0000-000000000009";

fn json(text: &str) -> Json {
    parse_json(text).expect("valid JSON")
}

fn vars(pairs: &[(&str, &str)]) -> TextMap<String> {
    let mut out = TextMap::new();
    for (k, v) in pairs {
        out.insert(k.to_string(), v.to_string());
    }
    out
}

fn texts(list: &[&str]) -> Vec<String> {
    list.iter().map(|t| t.to_string()).collect()
}

fn context(method: &str, project: Option<u128>) -> CallbackEventContext {
    CallbackEventContext {
        agent_id: 5,
        thread_id: "thread-5".to_string(),
        turn_id: None,
        role: AgentRole::Worker,
        project_id: project,
        foreman_id: None,
        job_id: None,
        method: method.to_string(),
        ts: 77,
        params: json("{\"k\":1}"),
        event_id: 9,
        result_snapshot: None,
        callback: WorkerCallback::Unset,
    }
}

fn command(program: &str, args: &[&str]) -> CommandCallbackProfile {
    CommandCallbackProfile {
        program: program.to_string(),
        args: texts(args),
        prompt_prefix: None,
        events: None,
        timeout_ms: None,
        env: TextMap::new(),
        event_prompt_variable: None,
        shell: None,
    }
}

fn webhook(url: &str, secret_env: Option<&str>, events: Option<&[&str]>) -> CallbackProfile {
    CallbackProfile::Webhook(WebhookCallbackProfile {
        url: url.to_string(),
        secret_env: secret_env.map(|s| s.to_string()),
        events: events.map(texts),
        timeout_ms: Some(0),
    })
}

fn with_profiles(profiles: Vec<(&str, CallbackProfile)>) -> ServiceConfig {
    let mut config = ServiceConfig::default();
    for (name, profile) in profiles {
        config.callbacks.profiles.insert(name.to_string(), profile);
    }
    config
}

fn env(pairs: &[(&str, &str)]) -> EnvVars {
    let mut out: EnvVars = TextMap::new();
    for (k, v) in pairs {
        out.insert(k.to_string(), Some(v.to_string()));
    }
    out
}

fn params(profile: Option<&str>, use_global_default: bool) -> CallbackResolutionParams {
    CallbackResolutionParams {
        callback_profile: profile.map(|p| p.to_string()),
        callback_prompt_prefix: None,
        callback_args: None,
        callback_vars: None,
        callback_events: None,
        use_global_default,
    }
}

fn profile_callback(profile: &str) -> WorkerProfileCallback {
    WorkerProfileCallback {
        profile: profile.to_string(),
        prompt_prefix: None,
        command_args: None,
        events: None,
        vars: TextMap::new(),
    }
}

fn deliver(
    context: &CallbackEventContext,
    callback: &WorkerCallback,
    config: &ServiceConfig,
) -> Result<Delivery, ForemanError> {
    dispatch_callback(context, callback, false, config, None, &TextMap::new(), &env(&[]))
}

fn project(configure: fn(&mut ProjectConfig)) -> ProjectRecord {
    let mut config = ProjectConfig::default();
    configure(&mut config);
    let runtime = ProjectRuntimeFiles {
        path: "/p".to_string(),
        foreman_prompt: "lead".to_string(),
        worker_prompt: "work".to_string(),
        runbook: "book".to_string(),
        handoff: Some("hand".to_string()),
    };
    create_project(7, "/p".to_string(), 70, config, runtime, 50)
}

#[test]
fn webhooks_get_the_payload() {
    let callback = WorkerCallback::Webhook(WorkerWebhookCallback {
        url: "https://h".to_string(),
        secret: Some("s".to_string()),
        events: None,
        timeout_ms: Some(250),
        vars: vars(&[("who", "me")]),
    });
    match deliver(&context("turn/completed", Some(7)), &callback, &ServiceConfig::default())
        .expect("delivered")
    {
        Delivery::Webhook(w) => {
            assert_eq!(w.url, "https://h");
            assert_eq!(w.secret, Some("s".to_string()));
            assert_eq!(w.timeout_ms, Some(250));
            assert_eq!(
                json_compact_value(&w.payload),
                format!(
                    "{{\"agent_id\":\"{AGENT}\",\"agent_role\":\"worker\",\
                     \"callback_vars\":{{\"agent_id\":\"{AGENT}\",\"agent_role\":\"worker\",\
                     \"callback_type\":\"agent-event\",\"event_id\":\"{EVENT}\",\
                     \"method\":\"turn/completed\",\
                     \"project_id\":\"00000000-0000-0000-0000-000000000007\",\
                     \"thread_id\":\"thread-5\",\"ts\":\"77\",\"who\":\"me\",\
                     \"worker_id\":\"{AGENT}\"}},\
                     \"event_id\":\"{EVENT}\",\"method\":\"turn/completed\",\
                     \"params\":{{\"k\":1}},\
                     \"project_id\":\"00000000-0000-0000-0000-000000000007\",\
                     \"thread_id\":\"thread-5\",\"ts\":77,\"turn_id\":null}}"
                )
            );
            assert_eq!(w.failed, "webhook callback to 'https://h' failed");
            assert_eq!(w.rejected, "webhook callback to 'https://h' returned non-2xx");
        }
        other => panic!("unexpected {:?}", other),
    }
}

#[test]
fn events_that_are_not_asked_for_are_not_delivered() {
    let callback = |events: &[&str]| {
        WorkerCallback::Webhook(WorkerWebhookCallback {
            url: "https://h".to_string(),
            secret: None,
            events: Some(texts(events)),
            timeout_ms: None,
            vars: TextMap::new(),
        })
    };
    let config = ServiceConfig::default();
    let chosen = callback(&["turn/completed"]);
    assert!(matches!(
        deliver(&context("turn/started", None), &chosen, &config).expect("filtered"),
        Delivery::Nothing
    ));
    assert!(matches!(
        dispatch_callback(
            &context("turn/started", None),
            &chosen,
            true,
            &config,
            None,
            &TextMap::new(),
            &env(&[])
        )
        .expect("not filtered"),
        Delivery::Webhook(_)
    ));
    assert!(matches!(
        deliver(&context("turn/started", None), &callback(&["*"]), &config).expect("any"),
        Delivery::Webhook(_)
    ));
    assert!(matches!(
        deliver(&context("turn/started", None), &WorkerCallback::Unset, &config).expect("none"),
        Delivery::Nothing
    ));
}

#[test]
fn sockets_get_a_line() {
    let callback = WorkerCallback::UnixSocket(WorkerUnixSocketCallback {
        socket: "/s".to_string(),
        events: None,
        timeout_ms: None,
        vars: TextMap::new(),
    });
    match deliver(&context("turn/completed", None), &callback, &ServiceConfig::default())
        .expect("delivered")
    {
        Delivery::UnixSocket(s) => {
            assert_eq!(s.socket, "/s");
            assert_eq!(s.timeout_ms, Some(5000));
            assert!(s.line.ends_with('\n'));
            assert!(s.line.contains("\"method\":\"turn/completed\""));
        }
        other => panic!("unexpected {:?}", other),
    }
}

#[test]
fn commands_are_filled_in() {
    let mut profile = command("/bin/notify", &["--event", "{{method}}", "{{turn_id}}"]);
    let config = with_profiles(vec![("cmd", CallbackProfile::Command(profile.clone()))]);
    let mut told = context("turn/completed", None);
    let chosen = WorkerCallback::Profile(profile_callback("cmd"));
    let e = deliver(&told, &chosen, &config).expect_err("no turn");
    assert!(e.full_message().contains("failed to render callback command args"));
    assert!(e.full_message().contains("turn_id"));
    told.turn_id = Some("turn-1".to_string());
    match deliver(&told, &chosen, &config).expect("delivered") {
        Delivery::Command(c) => {
            assert_eq!(c.program, "/bin/notify");
            assert_eq!(c.args, vec!["--event", "turn/completed", "turn-1"]);
        }
        other => panic!("unexpected {:?}", other),
    }
    profile.env.insert("WHO".to_string(), "{{agent_id}}".to_string());
    let config = with_profiles(vec![("cmd", CallbackProfile::Command(profile))]);
    let mut own = profile_callback("cmd");
    own.command_args = Some(texts(&["{{x}}"]));
    own.vars = vars(&[("x", "y")]);
    match dispatch_callback(
        &told,
        &WorkerCallback::Profile(own),
        false,
        &config,
        None,
        &vars(&[("HERE", "{{thread_id}}")]),
        &env(&[]),
    )
    .expect("delivered")
    {
        Delivery::Command(c) => {
            assert_eq!(c.args, vec!["y"]);
            assert!(c.env.contains(&("WHO".to_string(), AGENT.to_string())));
            assert!(c.env.contains(&("HERE".to_string(), "{{thread_id}}".to_string())));
        }
        other => panic!("unexpected {:?}", other),
    }
    let e = deliver(&told, &WorkerCallback::Profile(profile_callback("gone")), &config)
        .expect_err("no profile");
    assert!(e.full_message().contains("gone"));
}

#[test]
fn the_profile_that_is_asked_for_is_found() {
    let mut config = with_profiles(vec![
        ("hook", webhook("https://h", Some("HOOK_SECRET"), None)),
        (
            "sock",
            CallbackProfile::UnixSocket(UnixSocketCallbackProfile {
                socket: "/s".to_string(),
                events: None,
                timeout_ms: None,
            }),
        ),
    ]);
    match resolve_callback(&config, params(Some("hook"), true), &env(&[("HOOK_SECRET", "x")]))
        .expect("configured")
    {
        WorkerCallback::Webhook(w) => {
            assert_eq!(w.url, "https://h");
            assert_eq!(w.secret, Some("x".to_string()));
        }
        other => panic!("unexpected {:?}", other),
    }
    assert_eq!(
        resolve_callback(&config, params(Some("nope"), true), &env(&[]))
            .expect_err("not configured")
            .message(),
        "callback profile 'nope' is not configured"
    );
    assert!(matches!(
        resolve_callback(&config, params(None, true), &env(&[])).expect("none"),
        WorkerCallback::Unset
    ));
    config.callbacks.default_profile = Some("sock".to_string());
    assert!(matches!(
        resolve_callback(&config, params(None, true), &env(&[])).expect("default"),
        WorkerCallback::UnixSocket(_)
    ));
    assert!(matches!(
        resolve_callback(&config, params(None, false), &env(&[])).expect("no default"),
        WorkerCallback::Unset
    ));
}

#[test]
fn a_project_wins_over_the_service_and_a_request_over_both() {
    let config = with_profiles(vec![("hook", webhook("https://service", None, None))]);
    let mut own: TextMap<CallbackProfile> = TextMap::new();
    own.insert("hook".to_string(), webhook("https://project", None, None));
    let mut spec = CallbackSpec::default();
    spec.callback_profile = Some("hook".to_string());
    spec.callback_vars = Some(vars(&[("a", "1"), ("b", "1")]));
    let mut overrides = CallbackOverrides::default();
    overrides.callback_vars = Some(vars(&[("b", "2")]));
    overrides.callback_events = Some(texts(&["turn/aborted"]));
    match resolve_project_callback_spec(&config, &spec, &own, &overrides, false, &env(&[]))
        .expect("found")
    {
        WorkerCallback::Webhook(w) => {
            assert_eq!(w.url, "https://project");
            assert_eq!(w.vars.get("a"), Some(&"1".to_string()));
            assert_eq!(w.vars.get("b"), Some(&"2".to_string()));
            assert_eq!(w.events, Some(texts(&["turn/aborted"])));
        }
        other => panic!("unexpected {:?}", other),
    }
    let mut socket = CallbackSpec::default();
    socket.socket = Some("/s".to_string());
    assert!(matches!(
        resolve_project_callback_spec(
            &config,
            &socket,
            &own,
            &CallbackOverrides::default(),
            false,
            &env(&[])
        )
        .expect("socket"),
        WorkerCallback::UnixSocket(_)
    ));
}

#[test]
fn a_message_changes_only_what_it_names() {
    let config = with_profiles(vec![("hook", webhook("https://h", None, None))]);
    let existing = WorkerCallback::Webhook(WorkerWebhookCallback {
        url: "https://old".to_string(),
        secret: None,
        events: None,
        timeout_ms: None,
        vars: vars(&[("a", "1")]),
    });
    let mut input = SendAgentInput {
        prompt: None,
        callback_profile: None,
        callback_prompt_prefix: None,
        callback_args: None,
        callback_vars: Some(vars(&[("b", "2")])),
        callback_events: None,
    };
    match resolve_callback_for_send(&config, &input, &existing, &env(&[])).expect("kept") {
        WorkerCallback::Webhook(w) => {
            assert_eq!(w.url, "https://old");
            assert_eq!(w.vars.get("b"), Some(&"2".to_string()));
        }
        other => panic!("unexpected {:?}", other),
    }
    input.callback_profile = Some("hook".to_string());
    match resolve_callback_for_send(&config, &input, &existing, &env(&[])).expect("changed") {
        WorkerCallback::Webhook(w) => assert_eq!(w.url, "https://h"),
        other => panic!("unexpected {:?}", other),
    }
}

#[test]
fn filters_fire_for_their_tool_and_wait() {
    let filter = |name: &str, pattern: &str| CallbackFilter {
        name: name.to_string(),
        callback_profile: "cmd".to_string(),
        tool: "exec_command".to_string(),
        command_pattern: pattern.to_string(),
        debounce_ms: Some(1_000),
    };
    let filters = vec![filter("other", "cargo build"), filter("tests", "cargo test")];
    let config =
        with_profiles(vec![("cmd", CallbackProfile::Command(command("/bin/x", &["{{method}}"])))]);
    let told = ToolFilterDispatchContext {
        agent_id: 5,
        job_id: None,
        project_id: 7,
        params: json(
            "{\"item\":{\"type\":\"commandExecution\",\"command\":\"cargo test --all\"},\
             \"turn_id\":\"turn-1\"}",
        ),
    };
    let mut last: TextMap<u64> = TextMap::new();
    let mut fire = |config: &ServiceConfig, from: usize, now_ms: u64| {
        dispatch_tool_filtered_callbacks(
            &told,
            &filters,
            from,
            &mut last,
            config,
            None,
            &TextMap::new(),
            &env(&[]),
            9,
            now_ms,
            1,
        )
    };
    match fire(&config, 0, 5_000).expect("fires") {
        Some((index, Delivery::Command(c))) => {
            assert_eq!(index, 1);
            assert_eq!(c.args, vec!["item/completed"]);
        }
        other => panic!("unexpected {:?}", other),
    }
    assert!(fire(&config, 0, 5_500).expect("waits").is_none());
    assert!(fire(&config, 0, 6_000).expect("fires again").is_some());
    assert!(fire(&config, 2, 9_000).expect("past the end").is_none());
    let e = fire(&ServiceConfig::default(), 0, 20_000).expect_err("no profile");
    assert_eq!(e.message(), "tool-filter callback profile 'cmd' is not configured");
}

#[test]
fn projects_are_told_of_their_life() {
    let mut p = project(|c| {
        c.callbacks.lifecycle.start.socket = Some("/start".to_string());
        c.policy.compact_after_turns = Some(2);
    });
    let config = ServiceConfig::default();
    let none = CallbackOverrides::default();
    let start = start_context(&p, 70, 9, 51);
    assert_eq!(start.agent_id, 70);
    let delivery =
        dispatch_project_lifecycle_callback(&mut p, &config, "start", &none, &start, &env(&[]), 51)
            .expect("resolved");
    assert!(matches!(delivery, Delivery::UnixSocket(_)));
    finish_project_lifecycle_callback(&mut p, "start", true, 52);
    let told = get_project_callback_status(&p);
    assert_eq!(told.callbacks.get("start"), Some(&"success".to_string()));
    finish_project_lifecycle_callback(&mut p, "start", false, 53);
    assert_eq!(
        get_project_callback_status(&p).callbacks.get("start"),
        Some(&"failed".to_string())
    );

    let first = execute_project_worker_callback(&mut p, "turn/completed").expect("concerned");
    assert_eq!(first.key, "worker_completed");
    assert!(!first.compact);
    let second = execute_project_worker_callback(&mut p, "turn/completed").expect("concerned");
    assert!(second.compact);
    assert_eq!(p.completed_worker_turns, 0);
    let aborted = execute_project_worker_callback(&mut p, "turn/aborted").expect("concerned");
    assert_eq!(aborted.key, "worker_aborted");
    assert!(execute_project_worker_callback(&mut p, "turn/started").is_none());

    let compact = compact_context(7, 70, Some("t".to_string()), &Some("full".to_string()), 9, 60);
    assert_eq!(compact.project_id, Some(7));
    assert!(json_compact_value(&compact.params).contains("full"));
    assert_eq!(stop_context(&p, 1, 9, 61).agent_id, 70);
    p.foreman_agent_id = None;
    assert_eq!(stop_context(&p, 1, 9, 61).agent_id, 1);
}

#[test]
fn what_happens_to_workers_is_passed_up() {
    let p = project(|c| {
        c.callbacks.bubble_up.socket = Some("/up".to_string());
        c.policy.bubble_up_events = Some(vec!["turn/completed".to_string()]);
    });
    let config = ServiceConfig::default();
    match bubble_up(&p, &context("turn/completed", Some(7)), &config, &env(&[])).expect("passed") {
        Delivery::UnixSocket(s) => {
            assert_eq!(s.socket, "/up");
            assert!(s.line.contains("\"project_path\":\"/p\""));
        }
        other => panic!("unexpected {:?}", other),
    }
    assert!(matches!(
        bubble_up(&p, &context("turn/started", Some(7)), &config, &env(&[])).expect("kept"),
        Delivery::Nothing
    ));
}

#[test]
fn callbacks_of_a_project_are_checked_first() {
    let config = ServiceConfig::default();
    let none = CallbackOverrides::default();
    let good = ProjectConfig::default();
    assert!(matches!(
        check_project_callbacks(&config, &good, &none, &env(&[])).expect("in order"),
        WorkerCallback::Unset
    ));
    let mut bad = ProjectConfig::default();
    bad.callbacks.foreman.callback_profile = Some("nope".to_string());
    let e = check_project_callbacks(&config, &bad, &none, &env(&[])).expect_err("unknown");
    assert!(e.full_message().ends_with("callback profile 'nope' is not configured"));
    let request = SpawnProjectRequest {
        path: " /p ".to_string(),
        start_prompt: Some("go".to_string()),
        model: None,
        model_provider: None,
        cwd: None,
        sandbox: None,
        callback_overrides: none,
    };
    assert_eq!(resolve_project_path(&request), " /p ");
    let p = project(|_| {});
    let prompt = initial_prompt(&p.runtime, &request.start_prompt);
    assert!(prompt.starts_with("lead"));
    assert!(prompt.contains("book"));
    assert!(prompt.contains("go"));
}

#[test]
fn results_are_part_of_the_payload() {
    let mut told = context("turn/completed", None);
    told.result_snapshot = Some(AgentResult {
        agent_id: 5,
        status: "completed".to_string(),
        completion_method: Some("turn/completed".to_string()),
        turn_id: None,
        final_text: Some("done".to_string()),
        summary: None,
        references: Some(texts(&["a.rs"])),
        completed_at: Some(3),
        event_id: None,
        error: None,
    });
    let callback = WorkerCallback::Webhook(WorkerWebhookCallback {
        url: "https://h".to_string(),
        secret: None,
        events: None,
        timeout_ms: None,
        vars: TextMap::new(),
    });
    match deliver(&told, &callback, &ServiceConfig::default()).expect("delivered") {
        Delivery::Webhook(w) => {
            let text = json_compact_value(&w.payload);
            assert!(text.contains("\"final_text\":\"done\""));
            assert!(text.contains("\"references\":[\"a.rs\"]"));
        }
        other => panic!("unexpected {:?}", other),
    }
}

#[test]
fn a_context_is_told_under_another_name() {
    let told = context("turn/completed", Some(4)).with_method("worker/completed");
    assert_eq!(told.method, "worker/completed");
    assert_eq!(told.agent_id, 5);
    assert_eq!(told.ts, 77);
    assert_eq!(json_compact_value(&told.params), "{\"k\":1}");
    assert_eq!(told.worker_project(), Some(4));

    let mut standalone = context("turn/completed", Some(4));
    standalone.role = AgentRole::Standalone;
    assert_eq!(standalone.worker_project(), None);
}

#[test]
fn job_watchers_hear_of_events_and_of_the_end() {
    let mut told = context("turn/completed", Some(4));
    assert!(job_event(&told).is_none());
    told.job_id = Some(8);
    let event = job_event(&told).expect("the agent has a job");
    assert_eq!(event.job_id, 8);
    assert_eq!(event.agent_id, 5);
    assert_eq!(event.ts, 77);
    assert_eq!(event.method, "turn/completed");
    assert_eq!(json_compact_value(&event.params), "{\"k\":1}");

    let ended = job_completed_event(8, 5, "failed".to_string(), 99);
    assert_eq!(ended.method, "job.completed");
    assert_eq!(ended.ts, 99);
    assert_eq!(json_compact_value(&ended.params), "{\"status\":\"failed\"}");
}

#[test]
fn a_full_turn_count_asks_for_a_handoff() {
    let request = compact_request();
    assert_eq!(request.prompt, None);
    assert_eq!(
        request.reason.as_deref(),
        Some("compact_after_turns threshold")
    );
}

#[test]
fn event_prompts_are_the_prefix_and_the_payload() {
    let mut profile = command("/bin/notify", &["{{event_prompt}}"]);
    profile.prompt_prefix = Some("Handle this:\n".to_string());
    let config = with_profiles(vec![("cmd", CallbackProfile::Command(profile.clone()))]);
    let told = context("turn/completed", None);
    let args = |callback: WorkerProfileCallback, config: &ServiceConfig| {
        match deliver(&told, &WorkerCallback::Profile(callback), config).expect("delivered") {
            Delivery::Command(c) => c.args,
            other => panic!("unexpected {:?}", other),
        }
    };
    let mut plain = profile_callback("cmd");
    plain.command_args = Some(texts(&["{{event_json}}"]));
    let payload = args(plain, &config)[0].clone();
    assert!(payload.starts_with("{\"agent_id\":"));
    assert_eq!(
        args(profile_callback("cmd"), &config),
        vec![format!("Handle this:\n{payload}")]
    );
    let mut own = profile_callback("cmd");
    own.prompt_prefix = Some(" ".to_string());
    assert_eq!(args(own, &config), vec![format!(" {payload}")]);

    profile.prompt_prefix = None;
    profile.event_prompt_variable = Some("message".to_string());
    profile.args = texts(&["{{message}}"]);
    let config = with_profiles(vec![("cmd", CallbackProfile::Command(profile))]);
    assert_eq!(args(profile_callback("cmd"), &config), vec![payload]);
}

#[test]
fn socket_callbacks_name_the_event() {
    let callback = WorkerCallback::UnixSocket(WorkerUnixSocketCallback {
        socket: "/run/s".to_string(),
        events: None,
        timeout_ms: None,
        vars: vars(&[("who", "me")]),
    });
    match deliver(&context("turn/aborted", None), &callback, &ServiceConfig::default())
        .expect("delivered")
    {
        Delivery::UnixSocket(s) => {
            assert!(s.line.ends_with("}\n"));
            assert!(s.line.contains(&format!("\"callback_vars\":{{\"agent_id\":\"{AGENT}\"")));
            assert!(s.line.contains("\"who\":\"me\""));
        }
        other => panic!("unexpected {:?}", other),
    }
}

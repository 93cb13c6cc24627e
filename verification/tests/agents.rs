use codex_foreman::agent::{
    resolve_agent_status, AgentRecord, AgentRole, WorkerBudgetState, WorkerCallback,
    WorkerCheckpoint,
};
use codex_foreman::agent_events::{apply_event, record_callback_failure, IncomingEvent};
use codex_foreman::agent_status::{
    build_agent_state, get_agent_events, get_agent_logs, get_agent_progress_backlog,
    get_agent_result, is_wait_complete, wait_deadline, wait_step, WaitStep,
};
use codex_foreman::budget::{
    apply_budget_transition, evaluate_budget, update_budget_counters, worker_budget_status,
    CostChange, CostCheck,
};
use codex_foreman::config::{BudgetDefaultsConfig, BudgetOnExceed, CallbackFilter};
use codex_foreman::constants;
use codex_foreman::events::events_allowed;
use codex_foreman::extract::{extract_agent_result_text, extract_result_references};
use codex_foreman::failure::{
    classify_failure_from_error, failure_class_retryable, failure_summary_for_class,
    update_failure_report,
};
use codex_foreman::governor::{
    governor_apply_rate_limit, governor_apply_success, governor_key, is_rate_limit_error,
    GovernorState,
};
use codex_foreman::ids::{id_text, new_id, new_ids, parse_id, short_uuid};
use codex_foreman::json::{Json, JsonNumber, RealNumber};
use codex_foreman::json_text::{json_compact_value, parse_json};
use codex_foreman::models::{AgentEventDto, AgentResult, FailureClass};
use codex_foreman::monitoring::{
    begin_restart, elapsed_millis, find_stalled_workers, finish_restart, reconcile_status,
    RestartStep,
};
use codex_foreman::project::JobDefaultsConfig;
use codex_foreman::registry::Foreman;
use codex_foreman::template::{
    render_template, render_template_strict, unresolved_template_tokens,
};
use codex_foreman::text_map::TextMap;
use codex_foreman::time_order::time_order;
use codex_foreman::tools::{
    command_matches_pattern, fire_tool_filter, judge_pattern, normalize_tool_name,
    parse_tool_call_summary, pattern_looks_like_regex, should_fire_tool_filter,
    strip_regex_delimiters,
};
use codex_foreman::turns::{
    callback_timeout_ms, continuation_prompt_for_turn, effective_min_turns,
    should_use_native_worktree, update_completed_turn_counter,
};
use codex_foreman::worktree::{build_worker_branch_name, build_worker_worktree_path};

fn json(text: &str) -> Json {
    parse_json(text).expect("valid JSON")
}

fn sample_worker_agent() -> AgentRecord {
    AgentRecord {
        id: new_id(),
        thread_id: "thread-budget".to_string(),
        active_turn_id: None,
        prompt: None,
        cwd: None,
        restart_attempts: 0,
        turns_completed: 0,
        validation_retries: 0,
        last_validation_error: None,
        worktree_path: None,
        branch_name: None,
        model: Some("gpt-5".to_string()),
        model_provider: Some("openai".to_string()),
        governor_key: Some("openai/gpt-5".to_string()),
        governor_inflight: false,
        throttled: false,
        retry_at_ms: None,
        throttle_reason: None,
        failure_report: None,
        budget: WorkerBudgetState::new(0),
        checkpoint: WorkerCheckpoint::default(),
        status: constants::AGENT_STATUS_IDLE.to_string(),
        callback: WorkerCallback::Unset,
        role: AgentRole::Worker,
        project_id: None,
        foreman_id: None,
        error: None,
        result: None,
        job_id: None,
        created_at: 1_700_000_000,
        updated_at: 1_700_000_000,
        events: Vec::new(),
    }
}

fn result_of(agent_id: u128, status: &str, method: Option<&str>) -> AgentResult {
    AgentResult {
        agent_id,
        status: status.to_string(),
        completion_method: method.map(|m| m.to_string()),
        turn_id: None,
        final_text: None,
        summary: None,
        references: None,
        completed_at: Some(1_700_000_000),
        event_id: None,
        error: None,
    }
}

fn incoming(method: &str, params: &str, ts: u64) -> IncomingEvent {
    IncomingEvent {
        method: method.to_string(),
        params: json(params),
        ts,
        now_ms: ts * 1000,
        event_id: 77,
        cost: no_cost(),
    }
}

fn no_cost() -> JsonNumber {
    JsonNumber::Real(RealNumber { text: "0.0".to_string(), magnitude: 0 })
}

fn cheap() -> CostCheck {
    CostCheck { exceeded: false, spent: "0.0".to_string(), limit: "1.0".to_string() }
}

fn vars(pairs: &[(&str, &str)]) -> TextMap<String> {
    let mut map = TextMap::new();
    for (k, v) in pairs {
        map.insert(k.to_string(), v.to_string());
    }
    map
}

#[test]
fn compact_turn_counter_resets_on_threshold() {
    let (completed_turns, should_compact) = update_completed_turn_counter(0, Some(3));
    assert_eq!(completed_turns, 1);
    assert!(!should_compact);

    let (completed_turns, should_compact) = update_completed_turn_counter(3, Some(3));
    assert_eq!(completed_turns, 0);
    assert!(should_compact);
}

#[test]
fn compact_turn_counter_ignores_zero_and_absent_threshold() {
    let (completed_turns, should_compact) = update_completed_turn_counter(10, None);
    assert_eq!(completed_turns, 10);
    assert!(!should_compact);

    let (completed_turns, should_compact) = update_completed_turn_counter(10, Some(0));
    assert_eq!(completed_turns, 10);
    assert!(!should_compact);
}

#[test]
fn compact_turn_counter_does_not_wrap() {
    assert_eq!(update_completed_turn_counter(u64::MAX, Some(u64::MAX)), (0, true));
    assert_eq!(update_completed_turn_counter(1, Some(3)), (2, false));
    assert_eq!(update_completed_turn_counter(2, Some(3)), (0, true));
}

#[test]
fn worker_branch_name_uses_short_job_and_worker_ids() {
    let job_id = parse_id("12345678-90ab-cdef-1234-567890abcdef").expect("parse job uuid");
    let worker_id = parse_id("abcdef12-3456-7890-abcd-ef1234567890").expect("parse worker uuid");
    let branch = build_worker_branch_name(job_id, worker_id);
    assert_eq!(branch, "foreman/12345678/abcdef12");
}

#[test]
fn worker_worktree_path_uses_foreman_worktree_directory() {
    let worker_id = parse_id("abcdef12-3456-7890-abcd-ef1234567890").expect("parse worker uuid");
    let path = build_worker_worktree_path("/tmp/example-project", worker_id);
    assert_eq!(path, "/tmp/example-project/.foreman/worktrees/abcdef12");
}

#[test]
fn identifiers_come_back_from_their_texts() {
    let id = parse_id("12345678-90ab-cdef-1234-567890abcdef").expect("parse");
    assert_eq!(id, 0x1234567890abcdef1234567890abcdef);
    assert_eq!(id_text(id), "12345678-90ab-cdef-1234-567890abcdef");
    assert_eq!(short_uuid(id), "12345678");
    for id in new_ids(3) {
        assert_eq!(parse_id(&id_text(id)), Ok(id));
    }
    assert!(parse_id("not an id").is_err());
    assert_eq!(
        uuid::Uuid::from_u128(id).to_string(),
        "12345678-90ab-cdef-1234-567890abcdef"
    );
}

#[test]
fn callback_timeout_respects_zero_as_no_timeout() {
    assert_eq!(
        callback_timeout_ms(None),
        Some(constants::DEFAULT_WORKER_CALLBACK_TIMEOUT_MS)
    );
    assert_eq!(callback_timeout_ms(Some(12_000)), Some(12_000));
    assert_eq!(callback_timeout_ms(Some(0)), None);
}

#[test]
fn events_allowed_respects_override_or_wildcard() {
    assert!(events_allowed("turn/completed", None, None));

    let callback_events = Some(vec!["turn/aborted".to_string()]);
    assert!(events_allowed(
        "turn/aborted",
        callback_events.as_ref(),
        None
    ));
    assert!(!events_allowed(
        "turn/completed",
        callback_events.as_ref(),
        None
    ));

    let wildcard_events = Some(vec!["*".to_string()]);
    assert!(events_allowed(
        "thread/status/changed",
        wildcard_events.as_ref(),
        None
    ));
}

#[test]
fn an_override_of_events_decides_alone() {
    let narrow = vec!["turn/aborted".to_string()];
    let wide = vec!["*".to_string()];
    assert!(!events_allowed("turn/completed", Some(&narrow), Some(&wide)));
    assert!(events_allowed("turn/completed", None, Some(&wide)));
    assert!(!events_allowed("turn/completed", None, Some(&narrow)));
}

#[test]
fn normalize_event_method_strips_codex_prefix() {
    assert_eq!(
        Foreman::normalize_event_method("codex/event/turn/started").to_string(),
        "turn/started"
    );
    assert_eq!(
        Foreman::normalize_event_method("codex/event/item/agentMessage").to_string(),
        "item/agentMessage"
    );
    assert_eq!(
        Foreman::normalize_event_method("codex/event/turn/completed").to_string(),
        "turn/completed"
    );
    assert_eq!(
        Foreman::normalize_event_method("turn/completed").to_string(),
        "turn/completed"
    );
    assert_eq!(
        Foreman::normalize_event_method("codex/event/custom.method").to_string(),
        "custom.method"
    );
    assert_eq!(
        Foreman::normalize_event_method("item_agentMessage/delta").to_string(),
        "item_agentMessage/delta"
    );
}

#[test]
fn normalize_event_method_leaves_native_methods_unchanged() {
    assert_eq!(
        Foreman::normalize_event_method("turn/completed").to_string(),
        "turn/completed"
    );
    assert_eq!(
        Foreman::normalize_event_method("item/agentMessage").to_string(),
        "item/agentMessage"
    );
}

#[test]
fn extract_agent_result_text_turn_completed_uses_turn_items() {
    let payload = json(
        r#"{
            "thread_id": "thread-1",
            "turn": {
                "id": "turn-1",
                "items": [
                    {
                        "id": "x",
                        "type": "commandExecution",
                        "aggregatedOutput": "ignored"
                    },
                    {
                        "id": "agent-message-1",
                        "type": "agentMessage",
                        "text": "final answer"
                    }
                ]
            }
        }"#,
    );

    let text = extract_agent_result_text("turn/completed", &payload);
    assert_eq!(text, Some("final answer".to_string()));
}

#[test]
fn extract_agent_result_text_turn_completed_requires_turn_payload() {
    let payload = json(
        r#"{
            "thread_id": "thread-1",
            "turn": {
                "id": "turn-1",
                "items": [
                    {
                        "id": "x",
                        "type": "agentMessage",
                        "text": ""
                    },
                    {
                        "id": "y",
                        "type": "agentMessage",
                        "message": "agent message"
                    }
                ]
            }
        }"#,
    );

    let text = extract_agent_result_text("turn/completed", &payload);
    assert_eq!(text, Some("agent message".to_string()));
}

#[test]
fn extract_agent_result_text_item_completed_falls_back_to_text_fields() {
    let payload = json(
        r#"{
            "thread_id": "thread-1",
            "item": {
                "id": "result-item",
                "type": "agentMessage",
                "content": [
                    {
                        "type": "text",
                        "message": "from content"
                    }
                ]
            }
        }"#,
    );

    let text = extract_agent_result_text("item/completed", &payload);
    assert_eq!(text, Some("from content".to_string()));
}

#[test]
fn references_of_a_result_are_read() {
    assert_eq!(
        extract_result_references(&json(r#"{"references":["a.rs","b.rs"]}"#)),
        Some(vec!["a.rs".to_string(), "b.rs".to_string()])
    );
    assert_eq!(extract_result_references(&json("{}")), None);
}

#[test]
fn render_template_replaces_all_known_tokens() {
    let vars = vars(&[
        ("agent_id", "agent-123"),
        ("event_id", "event-456"),
        ("thread_id", "thread-789"),
    ]);
    let rendered = render_template(
        "agent={{agent_id}} event={{event_id}} thread={{thread_id}}",
        &vars,
    );
    assert_eq!(
        rendered,
        "agent=agent-123 event=event-456 thread=thread-789"
    );
}

#[test]
fn render_template_ignores_unknown_tokens() {
    let vars = vars(&[("known", "x")]);
    let rendered = render_template("prefix {{known}} {{missing}} suffix", &vars);
    assert_eq!(rendered, "prefix x {{missing}} suffix");
}

#[test]
fn render_template_strict_rejects_unresolved_tokens() {
    let vars = vars(&[("known", "x")]);
    let result = render_template_strict("prefix {{known}} {{missing}} suffix", &vars);
    assert!(result.is_err());
    let error = result.expect_err("render error");
    let message = error.message();
    assert!(message.contains("missing"));
}

#[test]
fn unresolved_template_tokens_returns_unique_tokens() {
    let unresolved = unresolved_template_tokens("a {{first}} {{second}} {{first}} {{ third }}");
    assert_eq!(unresolved, vec!["first", "second", "third"]);
}

#[test]
fn strict_rendering_gives_a_text_without_tokens() {
    assert_eq!(
        render_template_strict("{{a}}-{{b}}", &vars(&[("a", "1"), ("b", "2")])).expect("all known"),
        "1-2"
    );
    let e = render_template_strict("{{x}} {{ y }}", &vars(&[])).expect_err("two are left");
    assert_eq!(e.message(), "callback template contains unresolved tokens: x, y");
}

#[test]
fn continuation_prompt_uses_strategy_and_min_turns() {
    let explore_defaults = JobDefaultsConfig {
        min_turns: None,
        strategy: Some("explore-plan-execute".to_string()),
        ..JobDefaultsConfig::default()
    };
    let first = continuation_prompt_for_turn(1, &explore_defaults).expect("turn 1 prompt");
    assert!(first.contains("Phase 1 complete"));
    let second = continuation_prompt_for_turn(2, &explore_defaults).expect("turn 2 prompt");
    assert!(second.contains("Phase 2 complete"));
    assert!(
        continuation_prompt_for_turn(3, &explore_defaults).is_none(),
        "strategy preset should allow completion at turn 3"
    );

    let generic_defaults = JobDefaultsConfig {
        min_turns: Some(4),
        strategy: Some("single".to_string()),
        ..JobDefaultsConfig::default()
    };
    let generic = continuation_prompt_for_turn(2, &generic_defaults).expect("generic prompt");
    assert!(generic.contains("turn 2 of at least 4"));
    assert!(continuation_prompt_for_turn(4, &generic_defaults).is_none());
    assert_eq!(effective_min_turns(&generic_defaults), 4);
    assert_eq!(effective_min_turns(&explore_defaults), 3);
}

#[test]
fn worktrees_are_used_as_configured() {
    let mut defaults = JobDefaultsConfig::default();
    assert!(!should_use_native_worktree(&defaults, 5));
    defaults.worktree_mode = "always".to_string();
    assert!(should_use_native_worktree(&defaults, 1));
    defaults.worktree_mode = "auto".to_string();
    assert!(!should_use_native_worktree(&defaults, 1));
    assert!(should_use_native_worktree(&defaults, 2));
}

#[test]
fn governor_rate_limit_backoff_is_shared_and_increases() {
    let mut shared = GovernorState {
        inflight_count: 2,
        ..GovernorState::default()
    };
    let first_retry = governor_apply_rate_limit(&mut shared, 10_000);
    let first_backoff = shared.backoff_ms;
    assert!(
        first_backoff >= constants::GOVERNOR_BACKOFF_INITIAL_MS,
        "initial shared backoff should be set"
    );
    assert!(first_retry > 10_000);
    assert_eq!(shared.inflight_count, 1, "inflight decremented on throttle");

    let second_retry = governor_apply_rate_limit(&mut shared, 11_000);
    assert!(
        shared.backoff_ms >= first_backoff,
        "shared backoff should grow across worker errors"
    );
    assert!(
        second_retry > first_retry.saturating_sub(200),
        "retry window should move forward"
    );
}

#[test]
fn governor_success_decays_backoff() {
    let mut shared = GovernorState {
        throttled_until_ms: 50_000,
        backoff_ms: 4_000,
        recent_errors: 2,
        inflight_count: 0,
    };
    governor_apply_success(&mut shared, 60_000);
    assert_eq!(shared.backoff_ms, 2_000);
    assert_eq!(shared.recent_errors, 1);
    governor_apply_success(&mut shared, 60_000);
    assert_eq!(shared.backoff_ms, 0);
    assert_eq!(shared.recent_errors, 0);
    assert_eq!(shared.throttled_until_ms, 0);
}

#[test]
fn backoff_never_passes_its_longest() {
    let mut state = GovernorState::default();
    for _ in 0..12 {
        governor_apply_rate_limit(&mut state, 1_000);
    }
    assert_eq!(state.backoff_ms, constants::GOVERNOR_BACKOFF_MAX_MS);
    assert_eq!(state.recent_errors, 12);
    assert_eq!(governor_key(Some("openai"), Some("gpt-5")), Some("openai/gpt-5".to_string()));
    assert!(is_rate_limit_error("HTTP 429"));
    assert!(is_rate_limit_error("Quota reached"));
    assert!(!is_rate_limit_error("no such file"));
}

#[test]
fn failure_classification_detects_common_error_types() {
    assert_eq!(
        classify_failure_from_error(Some("429 rate limit exceeded"), None),
        FailureClass::RateLimit
    );
    assert_eq!(
        classify_failure_from_error(Some("operation timed out"), None),
        FailureClass::Timeout
    );
    assert_eq!(
        classify_failure_from_error(Some("callback command failed"), None),
        FailureClass::CallbackError
    );
    assert_eq!(
        classify_failure_from_error(Some("mystery issue"), None),
        FailureClass::Unknown
    );
}

#[test]
fn failure_reports_keep_when_they_began() {
    assert_eq!(
        classify_failure_from_error(None, Some(&json(r#"{"status":"timed_out"}"#))),
        FailureClass::Timeout
    );
    let mut report = None;
    update_failure_report(&mut report, FailureClass::Timeout, "a".to_string(), None, false, 10);
    update_failure_report(
        &mut report,
        FailureClass::Timeout,
        "b".to_string(),
        Some("d".to_string()),
        true,
        20,
    );
    let report = report.expect("there");
    assert_eq!(report.first_seen, 10);
    assert_eq!(report.last_seen, 20);
    assert_eq!(report.summary, "b");
    assert!(failure_class_retryable(&FailureClass::RateLimit));
    assert!(!failure_summary_for_class(&FailureClass::Unknown).is_empty());
}

#[test]
fn budget_enforcement_transitions_warn_pause_kill() {
    let mut warn_agent = sample_worker_agent();
    warn_agent.budget.prompt_tokens = 12;
    let warn_eval = evaluate_budget(&warn_agent.budget, 10, &cheap(), 100_000);
    assert!(warn_eval.exceeded);
    let _ = apply_budget_transition(
        &mut warn_agent,
        &BudgetOnExceed::Warn,
        warn_eval.reason.as_deref().expect("warn reason"),
        1_700_000_100,
    );
    assert!(warn_agent
        .error
        .as_deref()
        .is_some_and(|text| text.contains("budget warning")));
    assert_ne!(warn_agent.status, constants::AGENT_STATUS_PAUSED);
    assert_ne!(warn_agent.status, constants::AGENT_STATUS_FAILED);

    let mut pause_agent = sample_worker_agent();
    pause_agent.budget.prompt_tokens = 12;
    let pause_eval = evaluate_budget(&pause_agent.budget, 10, &cheap(), 100_000);
    let _ = apply_budget_transition(
        &mut pause_agent,
        &BudgetOnExceed::Pause,
        pause_eval.reason.as_deref().expect("pause reason"),
        1_700_000_200,
    );
    assert_eq!(pause_agent.status, constants::AGENT_STATUS_PAUSED);
    assert!(pause_agent.budget.paused_reason.is_some());

    let mut kill_agent = sample_worker_agent();
    kill_agent.active_turn_id = Some("turn-9".to_string());
    kill_agent.budget.elapsed_ms = 999_999;
    let kill_eval = evaluate_budget(&kill_agent.budget, 100, &cheap(), 10);
    let kill = apply_budget_transition(
        &mut kill_agent,
        &BudgetOnExceed::Kill,
        kill_eval.reason.as_deref().expect("kill reason"),
        1_700_000_300,
    );
    assert_eq!(kill_agent.status, constants::AGENT_STATUS_FAILED);
    assert!(kill_agent.failure_report.is_some());
    assert!(kill.is_some(), "kill should request turn interrupt");
}

#[test]
fn budget_reasons_name_the_limit() {
    let mut budget = WorkerBudgetState::new(0);
    budget.prompt_tokens = 8;
    budget.output_tokens = 4;
    assert_eq!(budget.total_tokens(), 12);
    assert_eq!(
        evaluate_budget(&budget, 10, &cheap(), 5).reason,
        Some("token budget exceeded (12/10)".to_string())
    );
    let dear = CostCheck { exceeded: true, spent: "2.0".to_string(), limit: "1.0".to_string() };
    assert_eq!(
        evaluate_budget(&budget, 100, &dear, 5).reason,
        Some("cost budget exceeded (2.0/1.0)".to_string())
    );
    budget.elapsed_ms = 6;
    assert_eq!(
        evaluate_budget(&budget, 100, &cheap(), 5).reason,
        Some("duration budget exceeded (6/5)".to_string())
    );
    assert!(!evaluate_budget(&budget, 100, &cheap(), 6).exceeded);
}

#[test]
fn budget_counters_read_usage() {
    let mut budget = WorkerBudgetState::new(0);
    let change = update_budget_counters(
        &mut budget,
        &json(r#"{"usage":{"prompt_tokens":3,"output_tokens":4}}"#),
    );
    assert_eq!(budget.prompt_tokens, 3);
    assert_eq!(budget.output_tokens, 4);
    assert!(matches!(change, CostChange::Estimate(7)));
    let defaults = BudgetDefaultsConfig {
        max_tokens: 10,
        max_duration_ms: 20,
        on_exceed: BudgetOnExceed::Kill,
    };
    let mut agent = sample_worker_agent();
    agent.budget.prompt_tokens = 3;
    let status = worker_budget_status(&agent, &defaults);
    assert_eq!(status.limits.max_tokens, 10);
    assert_eq!(status.limits.on_exceed, "kill");
    assert_eq!(status.usage.prompt_tokens, 3);
}

#[test]
fn tool_filter_matching_honors_tool_command_and_debounce() {
    let filter = CallbackFilter {
        name: "on-commit".to_string(),
        callback_profile: "wake-openclaw".to_string(),
        tool: "exec_command".to_string(),
        command_pattern: "git commit".to_string(),
        debounce_ms: Some(5_000),
    };
    let agent_id = new_id();
    let mut debounce_map: TextMap<u64> = TextMap::new();

    assert!(should_fire_tool_filter(
        &mut debounce_map,
        agent_id,
        "exec_command",
        Some("git commit -m 'msg'"),
        &filter,
        10_000,
    ));
    assert!(!should_fire_tool_filter(
        &mut debounce_map,
        agent_id,
        "exec_command",
        Some("git commit -m 'msg 2'"),
        &filter,
        12_000,
    ));
    assert!(should_fire_tool_filter(
        &mut debounce_map,
        agent_id,
        "exec_command",
        Some("git commit -m 'msg 3'"),
        &filter,
        16_000,
    ));
    assert!(!should_fire_tool_filter(
        &mut debounce_map,
        agent_id,
        "apply_patch",
        Some("git commit -m 'msg 4'"),
        &filter,
        20_000,
    ));
}

#[test]
fn patterns_are_texts_or_regular_expressions() {
    assert!(command_matches_pattern(Some("git commit -m x"), "git commit"));
    assert!(!command_matches_pattern(Some("git push"), "git commit"));
    assert!(command_matches_pattern(Some("cargo test --all"), "^cargo (test|build)"));
    assert!(!command_matches_pattern(Some("run cargo test"), "^cargo (test|build)"));
    assert!(!command_matches_pattern(None, "git"));
    assert!(pattern_looks_like_regex("^a"));
    assert!(!pattern_looks_like_regex("git commit"));
    assert_eq!(strip_regex_delimiters("/ab/"), "ab");
    assert!(judge_pattern("git commit", "^x", Some(true)));
    assert!(!judge_pattern("git commit", "^git", Some(false)));
    assert!(!judge_pattern("git commit", "(", None));
    assert!(judge_pattern("git commit", "  ", None));
    let filter = CallbackFilter {
        name: "f".to_string(),
        callback_profile: "p".to_string(),
        tool: "exec_command".to_string(),
        command_pattern: "x".to_string(),
        debounce_ms: None,
    };
    let mut last: TextMap<u64> = TextMap::new();
    assert!(fire_tool_filter(&mut last, 1, "exec_command", true, &filter, 5));
    assert!(fire_tool_filter(&mut last, 1, "exec_command", true, &filter, 6));
    assert!(!fire_tool_filter(&mut last, 1, "exec_command", false, &filter, 7));
}

#[test]
fn resolve_agent_status_prefers_result_status_when_completed() {
    let agent_id = new_id();
    let agent = AgentRecord {
        id: agent_id,
        thread_id: "thread-1".to_string(),
        status: "running".to_string(),
        result: Some(result_of(agent_id, "completed", Some("turn/completed"))),
        created_at: 0,
        updated_at: 0,
        ..sample_worker_agent()
    };

    assert_eq!(resolve_agent_status(&agent), "completed");
}

#[test]
fn completion_of_a_turn_gives_a_result() {
    let mut agent = sample_worker_agent();
    agent.status = "running".to_string();
    agent.active_turn_id = Some("turn-1".to_string());
    let outcome = apply_event(
        &mut agent,
        &incoming(
            "turn/completed",
            r#"{"thread_id":"thread-budget","turn":{"id":"turn-1","status":"completed",
                "items":[{"type":"agentMessage","text":"done"}]}}"#,
            1_700_000_010,
        ),
    );
    assert!(outcome.ends_work);
    let result = agent.result.as_ref().expect("result");
    assert_eq!(result.final_text, Some("done".to_string()));
    assert_eq!(result.turn_id, Some("turn-1".to_string()));
    assert_eq!(agent.updated_at, 1_700_000_010);
    assert_eq!(agent.events.len(), 1);
    assert_eq!(outcome.context.turn_id, Some("turn-1".to_string()));
    assert!(outcome.tool_filter.is_none());
}

#[test]
fn no_more_events_are_kept_than_the_buffer_takes() {
    let mut agent = sample_worker_agent();
    for i in 0..60u64 {
        apply_event(&mut agent, &incoming("item/note", "{}", 100 + i));
    }
    assert_eq!(agent.events.len(), constants::EVENT_BUFFER_MAX);
    assert_eq!(agent.events[0].ts, 110);
    assert_eq!(agent.events[49].ts, 159);
    assert_eq!(get_agent_events(&agent, Some(2)).len(), 2);
    assert_eq!(get_agent_events(&agent, Some(2))[1].ts, 159);
    assert_eq!(get_agent_events(&agent, None).len(), 50);
}

#[test]
fn commands_of_a_project_are_looked_at() {
    let mut agent = sample_worker_agent();
    agent.project_id = Some(5);
    agent.job_id = Some(6);
    let outcome = apply_event(
        &mut agent,
        &incoming(
            "item/completed",
            r#"{"item":{"type":"commandExecution","command":"git commit"}}"#,
            3,
        ),
    );
    let seen = outcome.tool_filter.expect("looked at");
    assert_eq!(seen.project_id, 5);
    assert_eq!(seen.job_id, Some(6));
    let event = &agent.events[0];
    let call = parse_tool_call_summary(event).expect("a tool");
    assert_eq!(call.command, Some("git commit".to_string()));
    assert_eq!(call.at, 3);
    assert!(normalize_tool_name("item/completed", &event.params).is_some());
    let logs = get_agent_logs(&agent, None, None);
    assert_eq!(logs.len(), 1);
    assert_eq!(logs[0].command, Some("git commit".to_string()));
}

#[test]
fn failed_callbacks_are_recorded() {
    let mut agent = sample_worker_agent();
    record_callback_failure(&mut agent, "no such program", 9);
    assert_eq!(agent.error, Some("callback execution failed: no such program".to_string()));
    assert_eq!(agent.failure_report.expect("report").class, FailureClass::CallbackError);
}

#[test]
fn stalled_workers_are_started_again_and_then_given_up() {
    let mut agent = sample_worker_agent();
    agent.status = "running".to_string();
    agent.prompt = Some("work".to_string());
    agent.active_turn_id = Some("turn-1".to_string());
    agent.updated_at = 100;
    let id = agent.id;
    let mut agents = vec![agent];
    assert_eq!(elapsed_millis(100, 103), 3_000);
    assert_eq!(elapsed_millis(103, 100), 0);
    assert!(find_stalled_workers(&agents, 103, 3_000).is_empty());
    assert_eq!(find_stalled_workers(&agents, 104, 3_000), vec![id]);

    match begin_restart(&mut agents[0], 3_000, 1, 103) {
        RestartStep::Restart { prompt, active_turn_id, .. } => {
            assert_eq!(prompt, "work");
            assert_eq!(active_turn_id, Some("turn-1".to_string()));
        }
        other => panic!("unexpected {:?}", other),
    }
    assert_eq!(agents[0].status, "restarting");
    assert_eq!(agents[0].restart_attempts, 1);
    finish_restart(
        &mut agents[0],
        &Some("turn-1".to_string()),
        Ok("turn-2".to_string()),
        104,
    );
    assert_eq!(agents[0].status, "running");
    assert_eq!(agents[0].active_turn_id, Some("turn-2".to_string()));

    assert!(matches!(
        begin_restart(&mut agents[0], 3_000, 1, 110),
        RestartStep::GiveUp { .. }
    ));
    assert_eq!(agents[0].status, "failed");
    assert_eq!(
        agents[0].result.as_ref().expect("result").error,
        Some("worker stalled for 3000 ms without progress".to_string())
    );
    assert_eq!(
        agents[0].failure_report.as_ref().expect("report").class,
        FailureClass::Timeout
    );
    assert!(matches!(begin_restart(&mut agents[0], 3_000, 9, 111), RestartStep::Skip));
}

#[test]
fn a_restart_that_fails_ends_the_worker() {
    let mut agent = sample_worker_agent();
    agent.status = "restarting".to_string();
    finish_restart(&mut agent, &None, Err("closed".to_string()), 7);
    assert_eq!(agent.status, "failed");
    assert_eq!(agent.error, Some("worker restart failed: closed".to_string()));
    assert_eq!(agent.result.expect("result").status, "aborted");
}

#[test]
fn a_busy_agent_with_a_result_takes_its_status() {
    let mut agent = sample_worker_agent();
    agent.status = "running".to_string();
    agent.result = Some(result_of(1, "completed", Some("turn/completed")));
    reconcile_status(&mut agent, 55);
    assert_eq!(agent.status, "completed");
    assert_eq!(agent.updated_at, 55);
    let mut idle = sample_worker_agent();
    idle.result = Some(result_of(1, "completed", None));
    reconcile_status(&mut idle, 55);
    assert_eq!(idle.status, "idle");
}

#[test]
fn states_and_results_tell_of_the_agent() {
    let defaults = BudgetDefaultsConfig {
        max_tokens: 10,
        max_duration_ms: 20,
        on_exceed: BudgetOnExceed::Warn,
    };
    let mut agent = sample_worker_agent();
    agent.active_turn_id = Some("turn-1".to_string());
    let state = build_agent_state(&agent, &defaults, 1_700_000_002);
    assert_eq!(state.id, agent.id);
    assert_eq!(state.role, "worker");
    assert_eq!(state.status, "idle");
    let result = get_agent_result(&agent, &defaults);
    assert!(!is_wait_complete(&result));
    agent.result = Some(result_of(agent.id, "completed", Some("turn/completed")));
    let result = get_agent_result(&agent, &defaults);
    assert!(is_wait_complete(&result));
    assert_eq!(result.completion_method, Some("turn/completed".to_string()));
}

#[test]
fn waits_end_at_their_deadline() {
    assert_eq!(wait_deadline(100, None), None);
    assert_eq!(wait_deadline(100, Some(0)), None);
    assert_eq!(wait_deadline(100, Some(50)), Some(150));
    assert!(matches!(wait_step(Some(150), 150, None), WaitStep::TimedOut));
    match wait_step(Some(150), 140, Some(1_000)) {
        WaitStep::Sleep(ms) => assert_eq!(ms, 10),
        other => panic!("unexpected {:?}", other),
    }
    match wait_step(None, 140, None) {
        WaitStep::Sleep(ms) => assert_eq!(ms, constants::DEFAULT_WAIT_POLL_MS),
        other => panic!("unexpected {:?}", other),
    }
}

#[test]
fn progress_is_told_in_the_order_of_time() {
    let mut agent = sample_worker_agent();
    for ts in [30u64, 10, 20] {
        agent.events.push(AgentEventDto {
            ts,
            method: format!("m{}", ts),
            params: json("{}"),
        });
    }
    let told = get_agent_progress_backlog(&agent, Some(20));
    let times: Vec<u64> = told.iter().map(|e| e.ts).collect();
    assert_eq!(times, vec![20, 30]);
    assert_eq!(time_order(&vec![3, 1, 2, 1]), vec![1, 3, 2, 0]);
}

#[test]
fn long_texts_are_shortened_on_the_way() {
    let mut agent = sample_worker_agent();
    let long = "x".repeat(500);
    let params = format!("{{\"text\":\"{}\"}}", long);
    let outcome = apply_event(&mut agent, &incoming("item/note", &params, 1));
    assert!(json_compact_value(&outcome.progress.payload).len() < 500);
    assert_eq!(json_compact_value(&agent.events[0].params).len(), params.len());
}

#[test]
fn plain_text_is_rendered_as_it_is() {
    let mut vars = TextMap::new();
    vars.insert("name".to_string(), "value".to_string());
    assert_eq!(render_template("no {tokens} here }}", &vars), "no {tokens} here }}");
    assert!(unresolved_template_tokens("no {tokens} here }}").is_empty());
}

#[test]
fn a_firing_holds_back_no_other_agent_and_no_other_filter() {
    let filter = |name: &str| CallbackFilter {
        name: name.to_string(),
        callback_profile: "p".to_string(),
        tool: "exec_command".to_string(),
        command_pattern: "git".to_string(),
        debounce_ms: Some(5_000),
    };
    let mut last: TextMap<u64> = TextMap::new();
    let mut fires = |agent_id: u128, name: &str, now_ms: u64| {
        should_fire_tool_filter(
            &mut last,
            agent_id,
            "exec_command",
            Some("git push"),
            &filter(name),
            now_ms,
        )
    };
    assert!(fires(1, "a", 1_000));
    assert!(!fires(1, "a", 1_001));
    assert!(fires(2, "a", 1_002));
    assert!(fires(1, "b", 1_003));
    assert!(!fires(2, "a", 1_004));
}

use codex_foreman::agent::{
    AgentRecord, AgentRole, WorkerBudgetState, WorkerCallback, WorkerCheckpoint,
};
use codex_foreman::agent_events::IncomingEvent;
use codex_foreman::agent_turns::{
    acquire_governor_permit, apply_budget_policy, finish_retry, governor_mark_rate_limited,
    governor_mark_success, governor_release_permit, retry_throttled_agent_turn, starts_turn,
    TurnOutcome, TurnStep,
};
use codex_foreman::budget::CostCheck;
use codex_foreman::config::{BudgetDefaultsConfig, BudgetOnExceed, ServiceConfig};
use codex_foreman::constants;
use codex_foreman::foreman::Route;
use codex_foreman::governor::GovernorState;
use codex_foreman::id_map::IdMap;
use codex_foreman::ids::{id_text, new_id, parse_id};
use codex_foreman::job::JobRecord;
use codex_foreman::jobs::{create_job, check_job_graph, resolve_job_worker_spec, WorkerPlace};
use codex_foreman::json::{Json, JsonNumber, RealNumber};
use codex_foreman::json_text::parse_json;
use codex_foreman::launch::{dependency_status_for_worker, DependencyStatus};
use codex_foreman::models::{
    AgentResult, CallbackOverrides, CompactProjectRequest, CreateProjectJobsRequest,
    InterruptInput, PlanProjectJobsRequest, ProjectJobWorkerSpec, RetryAgentRequest,
    SendAgentInput, SpawnAgentRequest, SpawnAgentResponse, SpawnProjectWorkerRequest,
};
use codex_foreman::monitoring::RestartStep;
use codex_foreman::project::{ProjectConfig, ProjectRuntimeFiles};
use codex_foreman::project_requests::{describe_foreman_turn, project_members};
use codex_foreman::projects::create_project;
use codex_foreman::recovery::LiveProject;
use codex_foreman::registry::Foreman;
use codex_foreman::resolve::EnvVars;
use codex_foreman::scope::{
    assign_worker_names, build_overlap_matrix, count_high_risk, extract_path_hints,
    normalize_scope_path,
};
use codex_foreman::state::{PersistedAgentRecord, PersistedState, PersistedWorkerCallback};
use codex_foreman::text_map::TextMap;
use codex_foreman::worktree::CwdPlan;

fn json(text: &str) -> Json {
    parse_json(text).expect("valid JSON")
}

fn no_env() -> EnvVars {
    TextMap::new()
}

fn sample_worker_agent() -> AgentRecord {
    AgentRecord {
        id: new_id(),
        thread_id: "thread-budget".to_string(),
        active_turn_id: None,
        prompt: None,
        cwd: None,
        restart_attempts: 0,
        turns_completed: 0,
        validation_retries: 0,
        last_validation_error: None,
        worktree_path: None,
        branch_name: None,
        model: Some("gpt-5".to_string()),
        model_provider: Some("openai".to_string()),
        governor_key: Some("openai/gpt-5".to_string()),
        governor_inflight: false,
        throttled: false,
        retry_at_ms: None,
        throttle_reason: None,
        failure_report: None,
        budget: WorkerBudgetState::new(0),
        checkpoint: WorkerCheckpoint::default(),
        status: constants::AGENT_STATUS_IDLE.to_string(),
        callback: WorkerCallback::Unset,
        role: AgentRole::Worker,
        project_id: None,
        foreman_id: None,
        error: None,
        result: None,
        job_id: None,
        created_at: 1_700_000_000,
        updated_at: 1_700_000_000,
        events: Vec::new(),
    }
}

fn agent(id: u128, thread: &str) -> AgentRecord {
    AgentRecord { id, thread_id: thread.to_string(), ..sample_worker_agent() }
}

fn result_of(agent_id: u128, status: &str, method: &str) -> AgentResult {
    AgentResult {
        agent_id,
        status: status.to_string(),
        completion_method: Some(method.to_string()),
        turn_id: Some("turn-upstream".to_string()),
        final_text: None,
        summary: None,
        references: None,
        completed_at: Some(5),
        event_id: None,
        error: None,
    }
}

fn service() -> Foreman {
    Foreman::new(ServiceConfig::default(), 100)
}

fn spawn_request(prompt: &str) -> SpawnAgentRequest {
    SpawnAgentRequest {
        prompt: prompt.to_string(),
        model: None,
        model_provider: None,
        cwd: None,
        sandbox: None,
        callback_profile: None,
        callback_prompt_prefix: None,
        callback_args: None,
        callback_vars: None,
        callback_events: None,
    }
}

fn send_input(prompt: Option<&str>) -> SendAgentInput {
    SendAgentInput {
        prompt: prompt.map(|p| p.to_string()),
        callback_profile: None,
        callback_prompt_prefix: None,
        callback_args: None,
        callback_vars: None,
        callback_events: None,
    }
}

fn worker(name: Option<&str>, prompt: &str, scope: &[&str], needs: &[&str]) -> ProjectJobWorkerSpec {
    ProjectJobWorkerSpec {
        name: name.map(|n| n.to_string()),
        prompt: prompt.to_string(),
        labels: TextMap::new(),
        callback_overrides: CallbackOverrides::default(),
        model: None,
        model_provider: None,
        cwd: None,
        worktree: None,
        sandbox: None,
        depends_on: needs.iter().map(|n| n.to_string()).collect(),
        scope_paths: scope.iter().map(|n| n.to_string()).collect(),
    }
}

fn runtime() -> ProjectRuntimeFiles {
    ProjectRuntimeFiles {
        path: "/p".to_string(),
        foreman_prompt: "lead".to_string(),
        worker_prompt: "work".to_string(),
        runbook: "book".to_string(),
        handoff: None,
    }
}

fn started(id: u128) -> SpawnAgentResponse {
    SpawnAgentResponse {
        id,
        thread_id: "t".to_string(),
        turn_id: None,
        status: "running".to_string(),
        project_id: None,
        role: "foreman".to_string(),
        foreman_id: None,
    }
}

fn service_with_project(policy: &str) -> Foreman {
    let mut foreman = service();
    let mut config = ProjectConfig::default();
    config.policy.overlap_policy = policy.to_string();
    foreman.create_project(7, "/p/demo".to_string(), started(70), config, runtime(), 50);
    foreman
}

fn job_of(id: u128, workers: Vec<u128>) -> JobRecord {
    JobRecord {
        id,
        project_id: None,
        status: constants::JOB_STATUS_RUNNING.to_string(),
        worker_ids: workers,
        worker_labels: IdMap::new(),
        merged_branches: Vec::new(),
        merge_conflicts: Vec::new(),
        worker_names: IdMap::new(),
        dependency_graph: IdMap::new(),
        blocked_reasons: IdMap::new(),
        base_branch: "main".to_string(),
        merge_strategy: "manual".to_string(),
        created_at: 1,
        completed_at: None,
        updated_at: 1,
    }
}

fn build_recovery_state_for_completed_running_agent() -> PersistedState {
    PersistedState {
        version: 1,
        generated_at: 1_700_000_000,
        agents: vec![PersistedAgentRecord {
            id: id_text(new_id()),
            thread_id: "thread-recovery".to_string(),
            active_turn_id: Some("turn-0".to_string()),
            prompt: Some("recovery prompt".to_string()),
            cwd: None,
            restart_attempts: 0,
            turns_completed: 0,
            validation_retries: 0,
            last_validation_error: None,
            worktree_path: None,
            branch_name: None,
            model: Some("gpt-5".to_string()),
            model_provider: Some("openai".to_string()),
            governor_key: Some("openai/gpt-5".to_string()),
            governor_inflight: false,
            throttled: false,
            retry_at_ms: None,
            throttle_reason: None,
            failure_report: None,
            budget: None,
            checkpoint: None,
            status: "running".to_string(),
            callback: PersistedWorkerCallback::Unset,
            role: "standalone".to_string(),
            project_id: None,
            foreman_id: None,
            error: None,
            result: Some(AgentResult {
                agent_id: new_id(),
                status: "completed".to_string(),
                completion_method: Some("turn/completed".to_string()),
                turn_id: Some("turn-0".to_string()),
                final_text: Some("recovered".to_string()),
                summary: None,
                references: None,
                completed_at: Some(1_700_000_001),
                event_id: Some(new_id()),
                error: None,
            }),
            job_id: None,
            created_at: 1_700_000_000,
            updated_at: 1_700_000_001,
            events: Vec::new(),
        }],
        projects: Vec::new(),
        jobs: Vec::new(),
        governors: TextMap::new(),
    }
}

#[test]
fn get_agent_result_reflects_completed_status_from_persisted_record() {
    let mut foreman = service();
    let state = build_recovery_state_for_completed_running_agent();
    let agent_id = parse_id(&state.agents[0].id).expect("agent id");
    foreman.recover_state(state, Vec::new(), 1_000).expect("recover state");

    let result = foreman.get_agent_result(agent_id).expect("agent result");

    assert_eq!(result.status, "completed");
    assert_eq!(result.completion_method.as_deref(), Some("turn/completed"));
    assert!(result.completed_at.is_some());
}

#[test]
fn reload_project_config_returns_error_when_project_not_found() {
    let mut foreman = service();
    let err = foreman
        .reload_project_config(new_id(), ProjectConfig::default(), &no_env(), 1)
        .expect_err("reload should fail for unknown project");
    assert!(err.message().contains("project not found"), "unexpected error: {:?}", err);
}

#[test]
fn retry_mode_selects_last_turn_when_checkpoint_missing_and_checkpoint_when_present() {
    let mut foreman = service();
    let id = new_id();
    let request = spawn_request("implement changes");
    let callback = foreman.spawn_agent(&request, &no_env()).expect("spawn agent");
    foreman.add_agent(
        id,
        "thread-1".to_string(),
        &request,
        AgentRole::Standalone,
        None,
        None,
        None,
        callback,
        0,
        1,
    );
    let checkpoint = RetryAgentRequest { mode: "checkpoint".to_string() };

    let without_checkpoint =
        foreman.retry_agent(id, &checkpoint, 2).expect("retry should fallback");
    assert_eq!(without_checkpoint.prompt, "implement changes");
    let first = foreman.finish_retry(id, &without_checkpoint, Some("turn-a".to_string()), 2);
    assert_eq!(first.agent_id, id);
    assert_eq!(first.selected_mode, "last-turn");
    assert_eq!(first.restarted_turn_id, Some("turn-a".to_string()));
    assert!(!first.checkpoint_available);
    assert_eq!(foreman.agents[0].status, "running");
    assert_eq!(foreman.agents[0].active_turn_id, Some("turn-a".to_string()));

    foreman.agents[0].checkpoint.last_successful_turn_id = Some("turn-checkpoint".to_string());
    let with_checkpoint =
        foreman.retry_agent(id, &checkpoint, 3).expect("retry with checkpoint");
    let second = foreman.finish_retry(id, &with_checkpoint, None, 3);
    assert_eq!(second.selected_mode, "checkpoint");
    assert_eq!(second.restarted_turn_id, None);
    assert!(second.checkpoint_available);
    assert_eq!(foreman.agents[0].checkpoint.retry_count, 2);
}

#[test]
fn retry_modes_are_taken_in_any_case_and_checked() {
    let mut foreman = service();
    foreman.insert_agent(agent(1, "t1"));
    let e = foreman
        .retry_agent(1, &RetryAgentRequest { mode: "later".to_string() }, 2)
        .expect_err("no such mode");
    assert_eq!(e.message(), "retry mode must be 'last-turn' or 'checkpoint'");
    let e = foreman
        .retry_agent(1, &RetryAgentRequest { mode: " LAST-turn ".to_string() }, 2)
        .expect_err("no prompt");
    assert_eq!(e.message(), "retry is unavailable because there is no prior prompt for this agent");
    let e = foreman
        .retry_agent(2, &RetryAgentRequest { mode: "last-turn".to_string() }, 2)
        .expect_err("no agent");
    assert_eq!(e.message(), "agent not found");
    foreman.agents[0].prompt = Some("p".to_string());
    let plan = foreman
        .retry_agent(1, &RetryAgentRequest { mode: "Last-Turn".to_string() }, 2)
        .expect("planned");
    assert_eq!(plan.prompt, "p");
    finish_retry(&mut foreman.agents[0], &Some("turn-5".to_string()), 3);
    assert_eq!(foreman.agents[0].status, "running");
    assert_eq!(foreman.agents[0].active_turn_id, Some("turn-5".to_string()));
}

#[test]
fn overlap_matrix_marks_scope_overlap_as_high_risk() {
    let workers = vec![
        worker(
            Some("worker-a"),
            "Update src/core/lib.rs and docs/guide.md",
            &["src/core"],
            &[],
        ),
        worker(Some("worker-b"), "Refactor src/core/lib.rs API", &["src/core/lib.rs"], &[]),
    ];
    let names = assign_worker_names(&workers).expect("assign names");
    let matrix = build_overlap_matrix(&names, &workers, &TextMap::new());
    assert_eq!(matrix.len(), 1);
    assert_eq!(matrix[0].risk, "high");
    assert!(matrix[0].reasons.iter().any(|reason| reason.contains("overlap")));
    assert_eq!(count_high_risk(&matrix), 1);
}

#[test]
fn one_entry_stands_for_each_pair_of_workers() {
    let workers = vec![
        worker(None, "a", &["x"], &[]),
        worker(None, "b", &["y"], &[]),
        worker(Some("named"), "c", &["z"], &[]),
    ];
    let names = assign_worker_names(&workers).expect("names");
    assert_eq!(names, vec!["worker-1", "worker-2", "named"]);
    assert_eq!(build_overlap_matrix(&names, &workers, &TextMap::new()).len(), 3);
    let twice = vec![worker(Some("n"), "a", &[], &[]), worker(Some("n"), "b", &[], &[])];
    assert_eq!(
        assign_worker_names(&twice).expect_err("twice").message(),
        "duplicate worker name 'n'"
    );
    assert_eq!(normalize_scope_path("./src/core/"), "src/core");
    assert!(extract_path_hints("change src/a.rs now").contains(&"src/a.rs".to_string()));
}

#[test]
fn dependency_failure_blocks_downstream_worker() {
    let mut foreman = service();
    let upstream_id = new_id();
    let downstream_id = new_id();
    let job_id = new_id();

    let mut upstream = agent(upstream_id, "thread-a");
    upstream.result = Some(result_of(
        upstream_id,
        constants::AGENT_STATUS_FAILED,
        constants::EVENT_METHOD_TURN_ABORTED,
    ));
    let mut downstream = agent(downstream_id, "thread-b");
    downstream.prompt = Some("downstream task".to_string());
    foreman.insert_agent(upstream);
    foreman.insert_agent(downstream);

    let mut job = job_of(job_id, vec![upstream_id, downstream_id]);
    job.worker_names.insert(upstream_id, "upstream".to_string());
    job.worker_names.insert(downstream_id, "downstream".to_string());
    job.dependency_graph.insert(downstream_id, vec![upstream_id]);
    foreman.insert_job(job);

    foreman.launch_runnable_workers(job_id, 9).expect("launch runnable");

    let i = foreman.agent_index(downstream_id).expect("downstream");
    assert_eq!(foreman.agents[i].status, constants::AGENT_STATUS_BLOCKED);

    let job = &foreman.jobs[foreman.job_index(job_id).expect("job")];
    assert!(job.blocked_reasons.contains_key(downstream_id));
    assert_eq!(
        job.blocked_reasons.get(downstream_id),
        Some(&"blocked: dependency 'upstream' failed".to_string())
    );
}

#[test]
fn workers_start_when_what_they_need_has_succeeded() {
    let mut foreman = service();
    let mut first = agent(1, "a");
    first.prompt = Some("one".to_string());
    let mut second = agent(2, "b");
    second.prompt = Some("two".to_string());
    foreman.insert_agent(first);
    foreman.insert_agent(second);
    let mut job = job_of(9, vec![1, 2]);
    job.dependency_graph.insert(2, vec![1]);
    foreman.insert_job(job);

    let starts = foreman.launch_runnable_workers(9, 3).expect("launched");
    assert_eq!(starts.len(), 1);
    assert_eq!(starts[0].worker_id, 1);
    assert_eq!(starts[0].prompt, "one");
    assert_eq!(
        dependency_status_for_worker(&foreman.agents, &vec![1]),
        DependencyStatus::Pending
    );

    foreman.agents[0].result = Some(result_of(1, "completed", "turn/completed"));
    assert_eq!(
        dependency_status_for_worker(&foreman.agents, &vec![1]),
        DependencyStatus::Satisfied
    );
    assert_eq!(foreman.update_job_after_worker_event(9, &None, 4).expect("job"), None);
    let starts = foreman.launch_runnable_workers(9, 5).expect("launched");
    assert_eq!(starts.len(), 1);
    assert_eq!(starts[0].worker_id, 2);

    foreman.agents[1].result = Some(result_of(2, "failed", "turn/aborted"));
    assert_eq!(
        foreman.update_job_after_worker_event(9, &None, 6).expect("job"),
        Some("failed".to_string())
    );
    assert_eq!(foreman.jobs[0].completed_at, Some(6));
    assert_eq!(foreman.get_job_result(9).expect("there").status, "partial");
    assert_eq!(foreman.update_job_after_worker_event(9, &None, 7).expect("job"), None);
    let e = foreman.launch_runnable_workers(10, 1).expect_err("no job");
    assert_eq!(e.message(), "job not found");
}

#[test]
fn records_are_found_and_closed_agents_are_gone() {
    let mut foreman = service_with_project("warn");
    let mut lead = agent(70, "lead");
    lead.role = AgentRole::Foreman;
    lead.project_id = Some(7);
    foreman.insert_agent(lead);
    let mut hand = agent(71, "hand");
    hand.project_id = Some(7);
    hand.job_id = Some(9);
    hand.governor_inflight = true;
    foreman.insert_agent(hand);
    foreman.add_project_workers(7, &vec![71], 51);
    foreman.insert_job(job_of(9, vec![71]));
    acquire_governor_permit(&mut foreman.governors, "openai/gpt-5", 0);

    assert_eq!(foreman.agent_index(71).expect("there"), 1);
    foreman.close_agent(71, 60).expect("closed");
    assert_eq!(foreman.agent_index(71).expect_err("gone").message(), "agent not found");
    assert!(foreman.thread_map.get("hand").is_none());
    assert!(foreman.projects[0].worker_ids.is_empty());
    assert!(foreman.jobs[0].worker_ids.is_empty());
    assert_eq!(foreman.jobs[0].completed_at, Some(60));
    assert_eq!(foreman.governors.get("openai/gpt-5").expect("state").inflight_count, 0);

    foreman.close_agent(70, 61).expect("closed");
    assert_eq!(foreman.projects[0].foreman_agent_id, None);
    assert_eq!(foreman.projects[0].status, "orphaned");
    assert_eq!(foreman.close_agent(70, 62).expect_err("gone").message(), "agent not found");
}

#[test]
fn closing_a_project_closes_its_agents_and_jobs() {
    let mut foreman = service_with_project("warn");
    foreman.insert_agent(agent(70, "lead"));
    foreman.insert_agent(agent(71, "hand"));
    foreman.insert_agent(agent(72, "other"));
    foreman.add_project_workers(7, &vec![71], 51);
    let mut job = job_of(9, vec![71]);
    job.project_id = Some(7);
    foreman.insert_job(job);
    foreman.insert_job(job_of(10, vec![72]));
    let project = foreman.take_project(7).expect("there");
    let members = project_members(&project);
    assert_eq!(members, vec![71, 70]);
    foreman.close_project(7, &members, 60);
    assert_eq!(foreman.agents.len(), 1);
    assert_eq!(foreman.agents[0].id, 72);
    assert_eq!(foreman.jobs.len(), 1);
    assert_eq!(foreman.jobs[0].id, 10);
    assert_eq!(foreman.take_project(7).expect_err("gone").message(), "project not found");
}

#[test]
fn events_go_to_their_agent_or_wait_for_it() {
    let mut foreman = service();
    assert!(matches!(foreman.route_notification("turn/started", json("{}"), 1), Route::Dropped));
    for i in 0..55u64 {
        let r = foreman.route_notification(
            "codex/event/turn/started",
            json(r#"{"thread_id":"early"}"#),
            i,
        );
        assert!(matches!(r, Route::Kept));
    }
    let kept = foreman.drain_pending_events("early");
    assert_eq!(kept.len(), 50);
    assert_eq!(kept[0].ts, 5);
    assert_eq!(kept[49].ts, 54);
    assert_eq!(kept[0].method, "turn/started");
    assert!(foreman.drain_pending_events("early").is_empty());

    foreman.insert_agent(agent(3, "early"));
    match foreman.route_notification("codex/event/x", json(r#"{"thread_id":"early"}"#), 60) {
        Route::Agent { agent_id, method, .. } => {
            assert_eq!(agent_id, 3);
            assert_eq!(method, "x");
        }
        other => panic!("unexpected {:?}", other),
    }
    let event = IncomingEvent {
        method: "turn/completed".to_string(),
        params: json(r#"{"thread_id":"early","turn":{"id":"t","items":[]}}"#),
        ts: 61,
        now_ms: 61_000,
        event_id: 1,
        cost: JsonNumber::Real(RealNumber { text: "0.0".to_string(), magnitude: 0 }),
    };
    assert!(foreman.dispatch_event(3, &event).expect("there").ends_work);
    assert!(foreman.dispatch_event(4, &event).is_none());
    foreman.agents[0].governor_inflight = true;
    foreman.release_inflight(3);
    assert!(!foreman.agents[0].governor_inflight);
}

#[test]
fn turns_are_sent_and_their_outcome_is_kept() {
    let mut foreman = service();
    foreman.insert_agent(agent(1, "t1"));
    match foreman.begin_turn(1, 1_000, 1).expect("there") {
        TurnStep::Send { thread_id } => assert_eq!(thread_id, "t1"),
        other => panic!("unexpected {:?}", other),
    }
    assert_eq!(foreman.governors.get("openai/gpt-5").expect("state").inflight_count, 1);
    match foreman.finish_turn(1, Ok("turn-1".to_string()), 1_100, 2).expect("there") {
        TurnOutcome::Started { turn_id } => assert_eq!(turn_id, "turn-1"),
        other => panic!("unexpected {:?}", other),
    }
    assert_eq!(foreman.agents[0].active_turn_id, Some("turn-1".to_string()));
    let told = foreman.settle_spawn(
        1,
        "t1".to_string(),
        Some("turn-1".to_string()),
        AgentRole::Worker,
        Some(4),
        Some(5),
        3,
    );
    assert_eq!(told.turn_id, Some("turn-1".to_string()));
    assert_eq!(told.status, "running");
    let gone = foreman.settle_spawn(2, "t2".to_string(), None, AgentRole::Worker, None, None, 3);
    assert_eq!(gone.id, 2);
    assert_eq!(gone.thread_id, "t2");
    assert_eq!(gone.status, "unknown");
    assert_eq!(gone.role, "worker");
    assert_eq!(foreman.begin_turn(2, 1_000, 1).expect_err("no agent").message(), "agent not found");
    assert!(foreman.finish_turn(2, Ok("x".to_string()), 1, 1).is_none());
}

#[test]
fn a_rate_limit_makes_every_worker_of_the_model_wait() {
    let mut foreman = service();
    foreman.insert_agent(agent(1, "t1"));
    foreman.insert_agent(agent(2, "t2"));
    foreman.agents[0].prompt = Some("again".to_string());
    foreman.begin_turn(1, 10_000, 10).expect("there");
    let until = match foreman
        .finish_turn(1, Err("429 too many requests".to_string()), 10_000, 10)
        .expect("there")
    {
        TurnOutcome::Wait { retry_at_ms, .. } => retry_at_ms,
        other => panic!("unexpected {:?}", other),
    };
    assert!(until >= 11_000);
    assert!(foreman.agents[0].throttled);
    assert_eq!(foreman.list_throttled_workers().len(), 1);
    assert_eq!(retry_throttled_agent_turn(&foreman.agents[0]), Some("again".to_string()));
    match foreman.begin_turn(2, until - 1, 10).expect("there") {
        TurnStep::Wait { retry_at_ms, .. } => assert_eq!(retry_at_ms, until),
        other => panic!("unexpected {:?}", other),
    }
    assert!(matches!(foreman.begin_turn(2, until, 11).expect("there"), TurnStep::Send { .. }));
    assert!(matches!(
        foreman.finish_turn(2, Err("no such model".to_string()), until, 11).expect("there"),
        TurnOutcome::Failed
    ));
}

#[test]
fn permits_are_counted() {
    let mut governors: TextMap<GovernorState> = TextMap::new();
    assert_eq!(acquire_governor_permit(&mut governors, "k", 5), None);
    assert_eq!(acquire_governor_permit(&mut governors, "k", 5), None);
    governor_release_permit(&mut governors, "k");
    assert_eq!(governors.get("k").expect("state").inflight_count, 1);
    let until = governor_mark_rate_limited(&mut governors, "k", 5);
    assert_eq!(acquire_governor_permit(&mut governors, "k", 5), Some(until));
    governor_mark_success(&mut governors, "k", until);
    assert_eq!(acquire_governor_permit(&mut governors, "k", until), None);
}

#[test]
fn requests_to_agents_are_checked() {
    let mut foreman = service();
    foreman.insert_agent(agent(1, "t1"));
    let e = foreman.begin_send(1, &send_input(Some(" ")), &no_env(), 1).expect_err("nothing asked");
    assert_eq!(
        e.message(),
        "send requires either a non-empty prompt or at least one callback override"
    );
    foreman.begin_send(1, &send_input(Some("go")), &no_env(), 1).expect("in order");
    let mut other = send_input(None);
    other.callback_profile = Some("nope".to_string());
    let e = foreman.begin_send(1, &other, &no_env(), 1).expect_err("no profile");
    assert_eq!(
        e.full_message(),
        "failed to configure callback update: callback profile 'nope' is not configured"
    );
    let e = foreman.begin_send(5, &other, &no_env(), 1).expect_err("no agent");
    assert_eq!(e.message(), "agent not found");
    let told = foreman
        .send_turn(1, &send_input(Some("go")), Some("turn-1".to_string()), 4)
        .expect("there");
    assert_eq!(told.status, "running");
    assert_eq!(foreman.agents[0].prompt, Some("go".to_string()));
    let e = foreman.send_turn(5, &send_input(None), None, 4).expect_err("no agent");
    assert_eq!(e.message(), "agent missing");
}

#[test]
fn turns_are_steered_and_interrupted() {
    let mut foreman = service();
    foreman.insert_agent(agent(1, "t1"));
    assert_eq!(foreman.steer_target(1).expect_err("idle").message(), "no active turn to steer");
    let none = InterruptInput { turn_id: None };
    assert_eq!(
        foreman.interrupt_target(1, none.clone()).expect_err("idle").message(),
        "no active turn to interrupt"
    );
    foreman.agents[0].active_turn_id = Some("turn-1".to_string());
    assert_eq!(
        foreman.steer_target(1).expect("running"),
        ("t1".to_string(), "turn-1".to_string())
    );
    let told = foreman.steer(1, "turn-2".to_string(), 5).expect("there");
    assert_eq!(told.turn_id, Some("turn-2".to_string()));
    assert_eq!(
        foreman.interrupt_target(1, none).expect("running").1,
        "turn-2"
    );
    let named = InterruptInput { turn_id: Some("turn-9".to_string()) };
    assert_eq!(foreman.interrupt_target(1, named).expect("named").1, "turn-9");
    foreman.interrupt(1, 6);
    assert_eq!(foreman.agents[0].status, "interrupted");
    assert_eq!(foreman.steer_target(2).expect_err("none").message(), "agent not found");
    assert!(foreman.steer(2, "x".to_string(), 5).is_none());
}

#[test]
fn agents_without_a_profile_have_no_callback() {
    let foreman = service();
    assert!(matches!(
        foreman.spawn_agent(&spawn_request("p"), &no_env()).expect("no callback"),
        WorkerCallback::Unset
    ));
    let mut request = spawn_request("p");
    request.callback_profile = Some("nope".to_string());
    let e = foreman.spawn_agent(&request, &no_env()).expect_err("no profile");
    assert_eq!(
        e.full_message(),
        "failed to configure worker callback: callback profile 'nope' is not configured"
    );
}

#[test]
fn overlap_policies_are_kept() {
    let request = CreateProjectJobsRequest {
        workers: vec![worker(None, "a", &["src/x"], &[]), worker(None, "b", &["src/x"], &[])],
        approve_overlap: false,
    };
    let approved =
        CreateProjectJobsRequest { workers: request.workers.clone(), approve_overlap: true };
    let start = service_with_project("warn").create_project_jobs(7, &request).expect("allowed");
    assert_eq!(start.foreman_id, 70);
    assert_eq!(start.names, vec!["worker-1", "worker-2"]);
    let blocking = service_with_project("block");
    let e = blocking.create_project_jobs(7, &request).expect_err("blocked");
    assert_eq!(e.message(), "job blocked by overlap policy 'block' due to high-risk overlaps");
    assert!(blocking.create_project_jobs(7, &approved).is_err());
    let asking = service_with_project("require_approve");
    let e = asking.create_project_jobs(7, &request).expect_err("asks");
    assert_eq!(e.message(), "job requires overlap approval; retry with approve_overlap=true");
    assert!(asking.create_project_jobs(7, &approved).is_ok());
    let e = asking.create_project_jobs(8, &request).expect_err("no project");
    assert_eq!(e.message(), "project not found");
    let empty = CreateProjectJobsRequest { workers: Vec::new(), approve_overlap: false };
    let e = asking.create_project_jobs(7, &empty).expect_err("no worker");
    assert_eq!(e.message(), "at least one worker spec is required");
    let mut orphaned = service_with_project("warn");
    orphaned.projects[0].foreman_agent_id = None;
    let e = orphaned.create_project_jobs(7, &request).expect_err("no foreman");
    assert_eq!(e.message(), "project has no foreman");
    let plan = blocking
        .plan_project_jobs(
            7,
            &PlanProjectJobsRequest {
                workers: request.workers.clone(),
                declared_scope_paths: TextMap::new(),
            },
        )
        .expect("planned");
    assert!(plan.blocked);
    assert_eq!(plan.high_risk_pairs, 1);
}

#[test]
fn a_job_is_made_of_its_workers() {
    let mut foreman = service_with_project("warn");
    let specs = vec![
        worker(Some("a"), "first", &[], &[]),
        worker(Some("b"), "second", &[], &["a"]),
    ];
    let names = vec!["a".to_string(), "b".to_string()];
    let ids = vec![21, 22];
    let mut resolved = Vec::new();
    for (i, spec) in specs.iter().enumerate() {
        let (callback, place) =
            foreman.begin_job_worker(7, spec, 2, 9, ids[i], &no_env()).expect("resolved");
        match place {
            WorkerPlace::Cwd(CwdPlan::Use(cwd)) => {
                assert_eq!(cwd, "/p");
                resolved.push(
                    resolve_job_worker_spec(
                        spec,
                        i,
                        &names,
                        &ids,
                        &foreman.projects[0].runtime,
                        callback,
                        cwd,
                        None,
                    )
                    .expect("resolved"),
                );
            }
            other => panic!("unexpected {:?}", other),
        }
    }
    check_job_graph(&resolved).expect("no circle");
    assert_eq!(resolved[1].depends_on, vec![21]);
    assert_eq!(resolved[0].prompt, "work\n\nTASK\nfirst\n");
    for spec in &resolved {
        foreman.insert_agent(agent(spec.worker_id, "t"));
        foreman.prepare_job_worker(spec.worker_id, spec, 60);
    }
    let job = create_job(9, 7, &resolved, "main".to_string(), &"manual".to_string(), 60);
    foreman.register_job(7, job, 61);
    assert_eq!(foreman.projects[0].worker_ids, vec![21, 22]);
    let told = foreman.describe_job(7, 9, vec![21, 22], TextMap::new());
    assert_eq!(told.status, "running");
    assert_eq!(told.worker_count, 2);
    let starts = foreman.launch_runnable_workers(9, 62).expect("launched");
    assert_eq!(starts.len(), 1);
    assert_eq!(starts[0].worker_id, 21);
    assert!(foreman.wait_for_job_result(9, false, true).is_none());
    let late = foreman.wait_for_job_result(9, true, false).expect("timed out");
    assert!(late.timed_out);
    assert!(late.result.workers.is_empty());
    assert_eq!(late.result.total_workers, 2);
    assert_eq!(
        foreman.wait_for_job_result(8, true, false).expect("timed out").result.status,
        "unknown"
    );
    assert_eq!(foreman.list_jobs().len(), 1);
    assert_eq!(foreman.get_job(9).expect("there").worker_ids, vec![21, 22]);
    assert!(foreman.get_job_result(8).is_err());
    assert!(foreman.get_job_event_backlog(9, None).expect("there").is_empty());
}

#[test]
fn workers_that_wait_for_each_other_are_refused() {
    let foreman = service_with_project("warn");
    let names = vec!["a".to_string(), "b".to_string()];
    let ids = vec![21, 22];
    let resolve = |spec: &ProjectJobWorkerSpec, i: usize| {
        resolve_job_worker_spec(
            spec,
            i,
            &names,
            &ids,
            &foreman.projects[0].runtime,
            WorkerCallback::Unset,
            "/p".to_string(),
            None,
        )
    };
    let a = resolve(&worker(Some("a"), "x", &[], &["b"]), 0).expect("a");
    let b = resolve(&worker(Some("b"), "x", &[], &["a"]), 1).expect("b");
    assert_eq!(
        check_job_graph(&vec![a, b]).expect_err("circle").message(),
        "dependency graph contains a cycle"
    );
    assert_eq!(
        resolve(&worker(Some("a"), "x", &[], &["a"]), 0).expect_err("itself").message(),
        "worker 'a' cannot depend on itself"
    );
    assert_eq!(
        resolve(&worker(Some("a"), "x", &[], &["c"]), 0).expect_err("unknown").message(),
        "worker 'a' depends on unknown worker 'c'"
    );
}

#[test]
fn project_workers_are_planned_and_added() {
    let mut foreman = service_with_project("warn");
    let request = SpawnProjectWorkerRequest {
        prompt: "do it".to_string(),
        callback_overrides: CallbackOverrides::default(),
        model: None,
        model_provider: None,
        cwd: None,
        worktree: None,
        sandbox: None,
    };
    let plan = foreman.spawn_project_worker(7, &request, 5, &no_env()).expect("planned");
    assert_eq!(plan.foreman_id, 70);
    assert_eq!(plan.prompt, "work\n\nTASK\ndo it\n");
    foreman.projects[0].config.jobs.defaults.worktree_mode = "always".to_string();
    match foreman.spawn_project_worker(7, &request, 5, &no_env()).expect("planned").place {
        WorkerPlace::Native { worktree_path, branch_name } => {
            assert_eq!(worktree_path, "/p/.foreman/worktrees/00000000");
            assert_eq!(branch_name, "foreman/00000000/00000000");
        }
        other => panic!("unexpected {:?}", other),
    }
    foreman.insert_agent(agent(5, "t5"));
    let told = foreman.finish_project_worker(
        7,
        70,
        SpawnAgentResponse { id: 5, ..started(5) },
        Some(("/w".to_string(), "b".to_string())),
        80,
    );
    assert_eq!(told.foreman_id, 70);
    assert_eq!(foreman.agents[0].worktree_path, Some("/w".to_string()));
    assert_eq!(foreman.projects[0].worker_ids, vec![5]);
    assert_eq!(foreman.cleanup_residual_worktrees().len(), 0);
    foreman.agents[0].project_id = Some(7);
    let left = foreman.cleanup_residual_worktrees();
    assert_eq!(left[0].project_path, "/p/demo");
    let (path, commands) = foreman.cleanup_agent_worktree_if_any(5, true).expect("has one");
    assert_eq!(path, "/p/demo");
    assert_eq!(commands[0].args, vec!["worktree", "remove", "--force", "/w"]);
    assert_eq!(commands[1].args, vec!["branch", "-d", "b"]);
    foreman.forget_worktree(5, true, 81);
    assert_eq!(foreman.agents[0].worktree_path, None);
    assert!(foreman.cleanup_agent_worktree_if_any(5, true).is_none());
    let e = foreman.spawn_project_worker(8, &request, 5, &no_env()).expect_err("no project");
    assert_eq!(e.message(), "project not found");
}

#[test]
fn projects_are_told_of_and_compacted() {
    let mut foreman = service_with_project("warn");
    assert_eq!(foreman.list_projects().len(), 1);
    let state = foreman.get_project(7).expect("there");
    assert_eq!(state.name, "demo");
    assert_eq!(state.status, "running");
    let status = foreman.get_project_callback_status(7).expect("there");
    assert_eq!(status.callbacks.get("start"), Some(&"never_run".to_string()));
    let request = CompactProjectRequest {
        prompt: Some("more".to_string()),
        reason: Some("long".to_string()),
    };
    let (id, input) = foreman.compact_project(7, &request).expect("there");
    assert_eq!(id, 70);
    assert_eq!(
        input.prompt,
        Some(
            "---\nHandoff requested by project coordinator.\n\n\nREASON: long\n\n\nPROMPT:more\n"
                .to_string()
        )
    );
    assert_eq!(foreman.send_to_project_foreman(7).expect("there"), 70);
    assert_eq!(foreman.steer_project_foreman(7).expect("there"), 70);
    let told = describe_foreman_turn(7, 70, started(70));
    assert_eq!(told.role, "foreman");
    foreman.update_project_after_worker_event(7, 99).expect("there");
    assert_eq!(foreman.projects[0].updated_at, 99);
    foreman.projects[0].foreman_agent_id = None;
    let e = foreman.compact_project(7, &request).expect_err("no foreman");
    assert_eq!(e.message(), "project has no foreman");
    let e = foreman.send_to_project_foreman(7).expect_err("no foreman");
    assert_eq!(e.message(), "project not found");
    assert!(foreman.update_project_after_worker_event(8, 1).is_err());
}

#[test]
fn reloading_keeps_the_running_project() {
    let mut foreman = service_with_project("warn");
    let mut config = ProjectConfig::default();
    config.name = Some("renamed".to_string());
    config.policy.overlap_policy = "block".to_string();
    config.jobs.defaults.min_turns = Some(4);
    config.jobs.defaults.merge_strategy = "rebase".to_string();
    foreman.reload_project_config(7, config, &no_env(), 70).expect("reloaded");
    let kept = &foreman.projects[0].config;
    assert_eq!(kept.name, None);
    assert_eq!(kept.policy.overlap_policy, "block");
    assert_eq!(kept.jobs.defaults.min_turns, Some(4));
    assert_eq!(kept.jobs.defaults.merge_strategy, "manual");
    let mut wrong = ProjectConfig::default();
    wrong.callbacks.worker.callback_profile = Some("nope".to_string());
    let e = foreman.reload_project_config(7, wrong, &no_env(), 71).expect_err("no profile");
    assert_eq!(e.message(), "invalid worker callback config");
    let mut wrong = ProjectConfig::default();
    wrong.prompts.worker_file = " ".to_string();
    assert!(foreman.reload_project_config(7, wrong, &no_env(), 71).is_err());
    assert_eq!(foreman.projects[0].updated_at, 70);
}

#[test]
fn what_is_kept_comes_back() {
    let mut foreman = service_with_project("block");
    let mut hand = agent(71, "hand");
    hand.project_id = Some(7);
    hand.result = Some(result_of(71, "completed", "turn/completed"));
    foreman.insert_agent(hand);
    let mut job = job_of(9, vec![71]);
    job.worker_names.insert(71, "hand".to_string());
    job.dependency_graph.insert(71, Vec::new());
    foreman.insert_job(job);
    acquire_governor_permit(&mut foreman.governors, "openai/gpt-5", 0);

    let kept = foreman.persist_state_now(500);
    assert_eq!(kept.generated_at, 500);
    let mut other = Foreman::new(ServiceConfig::default(), 600);
    let live = vec![LiveProject { config: None, runtime: None }];
    other.recover_state(kept, live, 9_000).expect("recovered");
    assert_eq!(other.agents.len(), 1);
    assert_eq!(other.agents[0].id, 71);
    assert_eq!(other.thread_map.get("hand"), Some(&71));
    assert_eq!(other.projects[0].name, "demo");
    assert_eq!(other.projects[0].config.policy.overlap_policy, "block");
    assert_eq!(other.jobs[0].worker_names.get(71), Some(&"hand".to_string()));
    assert_eq!(other.governors.get("openai/gpt-5").expect("state").inflight_count, 1);
}

#[test]
fn a_state_with_a_wrong_identifier_is_not_taken_up() {
    let mut foreman = service();
    let mut state = build_recovery_state_for_completed_running_agent();
    state.agents[0].id = "nonsense".to_string();
    assert!(foreman.recover_state(state, Vec::new(), 1).is_err());
    assert!(foreman.agents.is_empty());
    let loaded = PersistedState::load(None, 4);
    assert_eq!(loaded.version, 1);
    let mut old = PersistedState::empty(1);
    old.version = 0;
    assert_eq!(PersistedState::load(Some(old), 4).version, 1);
    assert_eq!(PersistedState::empty(1).save(8).generated_at, 8);
}

#[test]
fn stalled_workers_of_the_service_are_restarted() {
    let mut foreman = service();
    let mut stalled = agent(1, "t1");
    stalled.status = "running".to_string();
    stalled.prompt = Some("p".to_string());
    stalled.active_turn_id = Some("turn-1".to_string());
    stalled.updated_at = 10;
    foreman.insert_agent(stalled);
    assert_eq!(foreman.enforce_worker_monitoring(14, 3_000), vec![1]);
    assert!(matches!(
        foreman.restart_stalled_worker(1, 3_000, 1, 13),
        RestartStep::Restart { .. }
    ));
    assert!(foreman.finish_restart(1, &None, Ok("turn-2".to_string()), 14));
    assert!(!foreman.finish_restart(2, &None, Ok("turn-2".to_string()), 14));
    assert!(matches!(foreman.restart_stalled_worker(2, 3_000, 1, 13), RestartStep::Skip));
    assert_eq!(foreman.list_worker_ids(), vec![1]);
    foreman.agents[0].result = Some(result_of(1, "completed", "turn/completed"));
    foreman.reconcile_agent_statuses(20);
    assert_eq!(foreman.agents[0].status, "completed");
}

#[test]
fn budgets_are_acted_on_once() {
    let defaults = BudgetDefaultsConfig {
        max_tokens: 10,
        max_duration_ms: u64::MAX,
        on_exceed: BudgetOnExceed::Kill,
    };
    let cost = CostCheck { exceeded: false, spent: "0".to_string(), limit: "1".to_string() };
    let mut worker = agent(1, "t1");
    worker.active_turn_id = Some("turn-1".to_string());
    worker.budget.prompt_tokens = 11;
    let step = apply_budget_policy(&mut worker, &defaults, &cost, "budget/tick", 1_000, 1)
        .expect("acted on");
    assert_eq!(step.interrupt, Some(("t1".to_string(), "turn-1".to_string())));
    assert_eq!(worker.status, "failed");
    assert!(apply_budget_policy(&mut worker, &defaults, &cost, "budget/tick", 1_000, 2).is_none());
    let mut lead = agent(2, "t2");
    lead.role = AgentRole::Foreman;
    lead.budget.prompt_tokens = 11;
    assert!(apply_budget_policy(&mut lead, &defaults, &cost, "budget/tick", 1_000, 1).is_none());
}

#[test]
fn the_service_tells_of_itself() {
    let mut foreman = service();
    assert_eq!(foreman.status_summary(130), (0, 0, 100, 30));
    assert_eq!(foreman.status_summary(90).3, 0);
    assert_eq!(foreman.configured_callback_profile_count(), 0);
    assert_eq!(foreman.default_callback_profile(), None);
    foreman.insert_agent(agent(1, "t1"));
    assert_eq!(foreman.list_agents(5).len(), 1);
    assert_eq!(foreman.get_agent(1, 5).expect("there").thread_id, "t1");
    assert!(foreman.get_agent(2, 5).is_err());
    assert!(foreman.get_agent_events(1, None).expect("there").is_empty());
    assert!(foreman.get_agent_logs(1, None, None).expect("there").is_empty());
    assert!(foreman.get_agent_progress_backlog(1, None).expect("there").is_empty());
    assert!(foreman.wait_for_agent_result(2, false, false).is_none());
    let late = foreman.wait_for_agent_result(2, true, false).expect("timed out");
    assert_eq!(late.result.status, "unknown");
    assert_eq!(late.result.error, Some("wait timeout".to_string()));
    let made = create_project(3, "/x/".to_string(), 4, ProjectConfig::default(), runtime(), 1);
    assert_eq!(made.name, "x");
}

#[test]
fn callback_only_updates_leave_the_work_alone() {
    let mut foreman = service();
    let mut working = agent(1, "t1");
    working.prompt = Some("work".to_string());
    working.status = "running".to_string();
    working.active_turn_id = Some("turn-1".to_string());
    working.restart_attempts = 2;
    foreman.insert_agent(working);
    let mut update = send_input(None);
    update.callback_events = Some(vec!["turn/completed".to_string()]);
    for input in [update.clone(), {
        let mut blank = update.clone();
        blank.prompt = Some(String::new());
        blank
    }] {
        let told = foreman.send_turn(1, &input, None, 9).expect("there");
        assert_eq!(told.turn_id, None);
        assert_eq!(told.status, "running");
        assert_eq!(foreman.agents[0].prompt, Some("work".to_string()));
        assert_eq!(foreman.agents[0].active_turn_id, Some("turn-1".to_string()));
        assert_eq!(foreman.agents[0].restart_attempts, 2);
        assert_eq!(foreman.agents[0].updated_at, 9);
    }
}

#[test]
fn agents_with_a_prompt_start_with_a_turn() {
    assert!(starts_turn(&spawn_request("go")));
    assert!(!starts_turn(&spawn_request(" \n")));
}

#[test]
fn records_are_written_in_full() {
    const HAND: &str = "00000000-0000-0000-0000-000000000047";
    const MATE: &str = "00000000-0000-0000-0000-000000000048";
    let mut foreman = service_with_project("block");
    let mut hand = agent(71, "hand");
    hand.project_id = Some(7);
    hand.job_id = Some(9);
    hand.created_at = 0;
    hand.updated_at = 12;
    hand.turns_completed = 0;
    hand.governor_key = None;
    hand.model = Some("gpt-5".to_string());
    foreman.insert_agent(hand);
    let mut job = job_of(9, vec![71, 72]);
    job.project_id = Some(7);
    job.worker_names.insert(71, "hand".to_string());
    job.dependency_graph.insert(72, vec![71]);
    foreman.insert_job(job);
    foreman.add_project_workers(7, &vec![71, 72], 13);

    let kept = foreman.persist_state_now(500);
    let written = &kept.agents[0];
    assert_eq!(written.id, HAND);
    assert_eq!(
        written.project_id.as_deref(),
        Some("00000000-0000-0000-0000-000000000007")
    );
    assert_eq!(
        written.job_id.as_deref(),
        Some("00000000-0000-0000-0000-000000000009")
    );
    assert_eq!(written.foreman_id, None);
    assert_eq!(written.created_at, 0);
    assert_eq!(written.turns_completed, 0);
    assert_eq!(written.governor_key, None);

    let job = &kept.jobs[0];
    assert_eq!(job.id, "00000000-0000-0000-0000-000000000009");
    assert_eq!(job.worker_ids, vec![HAND, MATE]);
    assert_eq!(job.base_branch.as_deref(), Some("main"));
    assert_eq!(job.merge_strategy.as_deref(), Some("manual"));
    assert_eq!(job.worker_names.get(HAND), Some(&"hand".to_string()));
    assert_eq!(job.worker_names.len(), 1);
    assert_eq!(job.dependency_graph.get(MATE), Some(&vec![HAND.to_string()]));

    let project = &kept.projects[0];
    assert_eq!(project.id, "00000000-0000-0000-0000-000000000007");
    assert_eq!(project.worker_ids, vec![HAND, MATE]);
}

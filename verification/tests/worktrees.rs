use codex_foreman::agent::{
    AgentRecord, AgentRole, WorkerBudgetState, WorkerCallback, WorkerCheckpoint,
};
use codex_foreman::agent_events::CallbackEventContext;
use codex_foreman::error::ForemanError;
use codex_foreman::id_map::IdMap;
use codex_foreman::job::JobRecord;
use codex_foreman::json_text::parse_json;
use codex_foreman::models::{AgentResult, FailureClass, WorkerWorktreeSpec};
use codex_foreman::post_turn::{
    after_turn_check, clear_validation_error, count_validation_retry, handle_validation_failure,
    handle_worker_post_turn, PostTurnStep, ValidationPhase, ValidationStep,
};
use codex_foreman::project::{JobDefaultsConfig, ValidationConfig};
use codex_foreman::worktree::{
    accept_existing_worktree, base_branch_command, check_worktree_path, create_worktree,
    create_worktree_args, detect_base_branch, forget_worktree, git_args,
    handle_worker_worktree_lifecycle,
    judge_validation_command, merge_worker_branch, record_failed_merge, record_merge_conflict,
    record_merged_branch, resolve_worker_cwd, run_git_command, worker_worktree_command,
    validation_args, worktree_verify_args, CwdPlan, ProgramOutput,
};

fn output(success: bool, code: i32, stdout: &str, stderr: &str) -> Result<ProgramOutput, String> {
    Ok(ProgramOutput {
        success,
        code: Some(code),
        stdout: stdout.to_string(),
        stderr: stderr.to_string(),
    })
}

fn worker() -> AgentRecord {
    AgentRecord {
        id: 5,
        thread_id: "t5".to_string(),
        active_turn_id: Some("turn-5".to_string()),
        prompt: None,
        cwd: Some("/p".to_string()),
        restart_attempts: 0,
        turns_completed: 1,
        validation_retries: 0,
        last_validation_error: None,
        worktree_path: Some("/w".to_string()),
        branch_name: Some("b".to_string()),
        model: None,
        model_provider: None,
        governor_key: None,
        governor_inflight: false,
        throttled: false,
        retry_at_ms: None,
        throttle_reason: None,
        failure_report: None,
        budget: WorkerBudgetState::new(0),
        checkpoint: WorkerCheckpoint::default(),
        status: "completed".to_string(),
        callback: WorkerCallback::Unset,
        role: AgentRole::Worker,
        project_id: Some(7),
        foreman_id: Some(70),
        error: None,
        result: None,
        job_id: Some(9),
        created_at: 1,
        updated_at: 1,
        events: Vec::new(),
    }
}

fn context(method: &str) -> CallbackEventContext {
    CallbackEventContext {
        agent_id: 5,
        thread_id: "t5".to_string(),
        turn_id: None,
        role: AgentRole::Worker,
        project_id: Some(7),
        foreman_id: Some(70),
        job_id: Some(9),
        method: method.to_string(),
        ts: 2,
        params: parse_json("{}").expect("valid"),
        event_id: 1,
        result_snapshot: None,
        callback: WorkerCallback::Unset,
    }
}

fn job() -> JobRecord {
    JobRecord {
        id: 9,
        project_id: Some(7),
        status: "running".to_string(),
        worker_ids: vec![5],
        worker_labels: IdMap::new(),
        merged_branches: Vec::new(),
        merge_conflicts: Vec::new(),
        worker_names: IdMap::new(),
        dependency_graph: IdMap::new(),
        blocked_reasons: IdMap::new(),
        base_branch: "main".to_string(),
        merge_strategy: "manual".to_string(),
        created_at: 1,
        completed_at: None,
        updated_at: 1,
    }
}

fn validation(action: &str) -> ValidationConfig {
    ValidationConfig {
        on_turn: vec!["make check".to_string()],
        on_complete: vec!["make all".to_string()],
        fail_action: action.to_string(),
        max_retries: 2,
    }
}

fn first_failure(
    outcomes: Vec<(&str, Result<ProgramOutput, String>)>,
) -> Result<(), ForemanError> {
    for (command, outcome) in outcomes {
        judge_validation_command(command, outcome)?;
    }
    Ok(())
}

#[test]
fn validation_commands_fail_on_first_non_zero_exit() {
    let err = first_failure(vec![
        ("echo ok >/dev/null", output(true, 0, "", "")),
        ("printf 'bad news' >&2; exit 7", output(false, 7, "", "bad news")),
        ("exit 0", output(true, 0, "", "")),
    ])
    .expect_err("expected validation failure");
    let message = err.full_message();
    assert!(message.contains("exit"));
    assert!(message.contains("bad news"));
    assert!(message.contains("7"));
}

#[test]
fn git_commands_tell_how_they_failed() {
    let command = base_branch_command();
    assert_eq!(command.args, vec!["symbolic-ref", "--short", "HEAD"]);
    assert_eq!(run_git_command("/p", &command, output(true, 0, " dev \n", "")).expect("ok"), "dev");
    assert_eq!(
        run_git_command("/p", &command, output(false, 128, "", "fatal\n"))
            .expect_err("failed")
            .message(),
        "detect base branch failed (exit 128) for git -C /p symbolic-ref --short HEAD. \
         stdout: <empty> stderr: fatal"
    );
    assert_eq!(
        run_git_command("/p", &command, Err("no git".to_string()))
            .expect_err("not run")
            .full_message(),
        "failed to execute git command for detect base branch: \
         git -C /p symbolic-ref --short HEAD: no git"
    );
    assert_eq!(detect_base_branch(Ok("dev".to_string())), "dev");
    assert_eq!(detect_base_branch(Ok(" ".to_string())), "main");
    assert_eq!(detect_base_branch(Err(ForemanError::from_text("x"))), "main");
}

#[test]
fn worktrees_are_made_and_checked() {
    assert_eq!(
        worker_worktree_command("/w", "b").args,
        vec!["worktree", "add", "/w", "-b", "b"]
    );
    assert_eq!(
        create_worktree_args("/p", "/w", &None),
        vec!["-C", "/p", "worktree", "add", "/w", "HEAD"]
    );
    assert_eq!(
        worktree_verify_args("/w"),
        vec!["-C", "/w", "rev-parse", "--is-inside-work-tree"]
    );
    assert!(create_worktree("/w", output(true, 0, "", "")).is_ok());
    assert_eq!(
        create_worktree("/w", output(false, 1, "out\n", "err\n")).expect_err("failed").message(),
        "failed to create worker worktree at /w: err out"
    );
    assert!(accept_existing_worktree("/w", Some(output(true, 0, "true\n", ""))).is_ok());
    assert_eq!(
        accept_existing_worktree("/w", Some(output(true, 0, "false", "")))
            .expect_err("no worktree")
            .message(),
        "worktree path already exists but is not a git worktree: /w"
    );
    assert!(accept_existing_worktree("/w", None).is_err());
    assert_eq!(
        accept_existing_worktree("/w", Some(Err("x".to_string()))).expect_err("x").full_message(),
        "failed to check existing worktree at /w: x"
    );
    assert_eq!(check_worktree_path("/w".to_string(), true, true).expect("there"), "/w");
    assert_eq!(
        check_worktree_path("/w".to_string(), false, false).expect_err("none").message(),
        "requested worktree path does not exist: /w"
    );
    assert_eq!(
        check_worktree_path("/w".to_string(), true, false).expect_err("file").message(),
        "requested worktree path is not a directory: /w"
    );
}

#[test]
fn workers_work_where_it_is_asked_for() {
    let spec = |create: bool| {
        Some(WorkerWorktreeSpec { path: "trees/a".to_string(), create, base_ref: None })
    };
    match resolve_worker_cwd("/p", &None, &None) {
        CwdPlan::Use(p) => assert_eq!(p, "/p"),
        other => panic!("unexpected {:?}", other),
    }
    match resolve_worker_cwd("/p", &Some("/q".to_string()), &None) {
        CwdPlan::Use(p) => assert_eq!(p, "/q"),
        other => panic!("unexpected {:?}", other),
    }
    match resolve_worker_cwd("/p", &None, &spec(true)) {
        CwdPlan::Create { path, .. } => assert_eq!(path, "/p/trees/a"),
        other => panic!("unexpected {:?}", other),
    }
    match resolve_worker_cwd("/p", &None, &spec(false)) {
        CwdPlan::Check { path } => assert_eq!(path, "/p/trees/a"),
        other => panic!("unexpected {:?}", other),
    }
}

#[test]
fn branches_are_merged_as_configured() {
    let actions = |strategy: &str| -> Vec<String> {
        merge_worker_branch("main", "b", strategy).commands.iter().map(|c| c.args.join(" ")).collect()
    };
    assert_eq!(actions("manual"), vec!["checkout main"]);
    assert_eq!(actions("sequential"), vec!["checkout main", "merge --no-ff b"]);
    assert_eq!(actions("rebase"), vec!["checkout main", "rebase main b", "merge --no-ff b"]);
    assert_eq!(
        merge_worker_branch("main", "b", "octopus").problem,
        Some("unsupported merge strategy 'octopus'".to_string())
    );
    let plan = handle_worker_worktree_lifecycle(&context("turn/completed"), &worker(), "rebase")
        .expect("concerned");
    assert_eq!(plan.merge, Some("b".to_string()));
    assert!(!plan.remove);
    let plan = handle_worker_worktree_lifecycle(&context("turn/completed"), &worker(), "manual")
        .expect("concerned");
    assert_eq!(plan.merge, None);
    let plan = handle_worker_worktree_lifecycle(&context("turn/aborted"), &worker(), "rebase")
        .expect("concerned");
    assert!(plan.remove);
    assert!(
        handle_worker_worktree_lifecycle(&context("turn/started"), &worker(), "rebase").is_none()
    );
    let mut bare = worker();
    bare.worktree_path = None;
    assert!(handle_worker_worktree_lifecycle(&context("turn/aborted"), &bare, "rebase").is_none());
}

#[test]
fn merges_and_conflicts_are_noted_once() {
    let mut j = job();
    record_merged_branch(&mut j, "b", 5);
    record_merged_branch(&mut j, "b", 6);
    assert_eq!(j.merged_branches, vec!["b"]);
    assert_eq!(j.updated_at, 5);
    record_merge_conflict(&mut j, "c", 7);
    record_merge_conflict(&mut j, "c", 8);
    assert_eq!(j.merge_conflicts, vec!["c"]);
    let mut w = worker();
    record_failed_merge(&mut w, "rebase", "b", "conflict", 9);
    let report = w.failure_report.as_ref().expect("reported");
    assert!(matches!(report.class, FailureClass::MergeConflict));
    assert_eq!(
        report.details,
        Some("merge strategy 'rebase' failed for branch 'b': conflict".to_string())
    );
    assert!(report.retryable);
    forget_worktree(&mut w, false, 10);
    assert_eq!(w.worktree_path, None);
    assert_eq!(w.branch_name, Some("b".to_string()));
    forget_worktree(&mut w, true, 11);
    assert_eq!(w.branch_name, None);
}

#[test]
fn work_is_checked_after_each_turn_and_at_the_end() {
    let checks = Some(validation("retry"));
    let mut defaults = JobDefaultsConfig::default();
    match handle_worker_post_turn(&context("turn/completed"), &checks, &defaults, &worker())
        .expect("planned")
    {
        PostTurnStep::Validate { phase, commands, cwd } => {
            assert!(matches!(phase, ValidationPhase::OnTurn));
            assert_eq!(commands, vec!["make check"]);
            assert_eq!(cwd, "/p");
        }
        other => panic!("unexpected {:?}", other),
    }
    let cwd = Some("/p".to_string());
    match after_turn_check(&checks, &defaults, &worker(), 1, &cwd).expect("planned") {
        PostTurnStep::Validate { phase, commands, .. } => {
            assert!(matches!(phase, ValidationPhase::OnComplete));
            assert_eq!(commands, vec!["make all"]);
        }
        other => panic!("unexpected {:?}", other),
    }
    assert_eq!(
        after_turn_check(&checks, &defaults, &worker(), 1, &None).expect_err("nowhere").message(),
        "worker has no cwd configured for validation.on_complete"
    );
    defaults.min_turns = Some(3);
    assert!(matches!(
        after_turn_check(&checks, &defaults, &worker(), 1, &cwd).expect("planned"),
        PostTurnStep::SendTurn { .. }
    ));
    assert!(matches!(
        after_turn_check(&None, &defaults, &worker(), 3, &cwd).expect("planned"),
        PostTurnStep::Done
    ));
    let mut busy = worker();
    busy.status = "running".to_string();
    assert!(matches!(
        after_turn_check(&checks, &defaults, &busy, 1, &cwd).expect("planned"),
        PostTurnStep::Done
    ));
    assert!(matches!(
        handle_worker_post_turn(&context("turn/started"), &checks, &defaults, &worker())
            .expect("planned"),
        PostTurnStep::Done
    ));
}

#[test]
fn bad_work_is_mended_or_given_up() {
    let mut w = worker();
    let (told, step) = handle_validation_failure(&mut w, &validation("warn"), "bad".to_string(), 3);
    assert_eq!(told.event, "validation/failed");
    assert!(matches!(step, ValidationStep::Continue));
    assert_eq!(w.last_validation_error, Some("bad".to_string()));
    clear_validation_error(&mut w, 4);
    assert_eq!(w.last_validation_error, None);

    let retry = validation("retry");
    for _ in 0..2 {
        match handle_validation_failure(&mut w, &retry, "bad".to_string(), 5).1 {
            ValidationStep::Retry { prompt } => {
                assert_eq!(prompt, "Validation failed: bad\nFix and commit.");
            }
            other => panic!("unexpected {:?}", other),
        }
        count_validation_retry(&mut w, 6);
    }
    assert_eq!(w.validation_retries, 2);
    w.result = Some(AgentResult {
        agent_id: 5,
        status: "completed".to_string(),
        completion_method: None,
        turn_id: None,
        final_text: None,
        summary: None,
        references: None,
        completed_at: Some(1),
        event_id: None,
        error: None,
    });
    match handle_validation_failure(&mut w, &retry, "bad".to_string(), 7).1 {
        ValidationStep::GiveUp { cleanup } => {
            let left = cleanup.expect("worktree");
            assert_eq!(left.worktree_path, "/w");
            assert_eq!(left.project_id, 7);
        }
        other => panic!("unexpected {:?}", other),
    }
    assert_eq!(w.status, "failed");
    assert_eq!(
        w.error,
        Some("bad (retry budget exhausted: 2/2 retries)".to_string())
    );
    assert_eq!(w.result.as_ref().expect("kept").status, "failed");
    assert_eq!(w.result.as_ref().expect("kept").turn_id, Some("turn-5".to_string()));
    let mut fail = worker();
    let (_, step) = handle_validation_failure(&mut fail, &validation("fail"), "bad".to_string(), 8);
    assert!(matches!(step, ValidationStep::GiveUp { .. }));
    assert_eq!(fail.error, Some("bad".to_string()));
}

#[test]
fn programs_get_their_arguments_in_order() {
    let command = base_branch_command();
    let args = git_args("/repo", &command);
    assert_eq!(args[0], "-C");
    assert_eq!(args[1], "/repo");
    assert_eq!(args[2..], command.args[..]);
    assert_eq!(validation_args("cargo test"), vec!["-lc", "cargo test"]);
}

use codex_foreman::auth::{authorize, AuthDecision, HeaderValue};
use codex_foreman::cli::{
    acquire_pid_lockfile, check_socket_path, default_service_config_path, describe_config,
    describe_scaffold, directory, effective_callback_profiles, error_hint, extract_codex_version,
    init_project, lock_holder, lock_path, parse_last_event_id, releases_lock,
    resolve_required_project_toml_path, resolve_socket_path, resolve_state_path,
    resolve_template_dir, run_mode, template_candidates, verify_codex_binary_version,
    write_job_event, write_template_file, RunMode, VersionOutput,
};
use codex_foreman::config::{
    CallbackFilter, CallbackProfile, CommandCallbackProfile, RuntimeAuthConfig, ServiceConfig,
    UnixSocketCallbackProfile, WebhookCallbackProfile,
};
use codex_foreman::doctor::{
    count_checks, examine, run_doctor_command, status_name, BinaryProbe, CheckStatus, Findings,
    RuntimeDirProbe,
};
use codex_foreman::error::ForemanError;
use codex_foreman::json_text::{json_compact_value, parse_json};
use codex_foreman::lint::{lint_project_toml, run_project_lint_command};
use codex_foreman::models::JobEventEnvelope;
use codex_foreman::project::ProjectConfig;
use codex_foreman::text_map::TextMap;

fn command(program: &str, args: &[&str]) -> CallbackProfile {
    CallbackProfile::Command(CommandCallbackProfile {
        program: program.to_string(),
        args: args.iter().map(|a| a.to_string()).collect(),
        prompt_prefix: None,
        events: None,
        timeout_ms: None,
        env: TextMap::new(),
        event_prompt_variable: None,
        shell: None,
    })
}

fn version(success: bool, stdout: &str, stderr: &str) -> Result<VersionOutput, String> {
    Ok(VersionOutput {
        success,
        status: "exit status: 3".to_string(),
        stdout: stdout.to_string(),
        stderr: stderr.to_string(),
    })
}

fn runtime_auth(scheme: Option<&str>) -> RuntimeAuthConfig {
    RuntimeAuthConfig {
        token: "s3cret".to_string(),
        header_name: "authorization".to_string(),
        header_scheme: scheme.map(|s| s.to_string()),
        skip_paths: vec!["/health".to_string()],
    }
}

fn refusal(decision: AuthDecision) -> Option<(u16, String)> {
    match decision {
        AuthDecision::Allow => None,
        AuthDecision::Refuse { status, message } => Some((status, message)),
    }
}

#[test]
fn resolve_template_dir_prefers_cli_override() {
    let preferred = "/tmp/preferred";
    let secondary = "/tmp/secondary";
    let candidates =
        template_candidates(Some(preferred), Some(secondary), "/manifest", Some("/bin/codex-foreman"));
    let is_dir: Vec<bool> =
        candidates.iter().map(|c| c == preferred || c == secondary).collect();
    let selected = resolve_template_dir(&candidates, &is_dir).expect("template dir resolves");
    assert_eq!(selected, preferred);
}

#[test]
fn resolve_template_dir_uses_manifest_templates_when_unset() {
    let candidates = template_candidates(None, None, "/manifest", Some("/opt/bin/codex-foreman"));
    assert_eq!(
        candidates,
        vec![
            "/manifest/templates",
            "/opt/bin/templates",
            "/usr/share/foreman/templates",
            "/etc/foreman/templates",
        ]
    );
    let is_dir = vec![true, true, false, false];
    let resolved = resolve_template_dir(&candidates, &is_dir).expect("manifest template directory");
    assert_eq!(resolved, "/manifest/templates");
    let e = resolve_template_dir(&candidates, &vec![false; 4]).expect_err("none");
    assert_eq!(
        e.message(),
        "template directory not found; searched: /manifest/templates, /opt/bin/templates, \
         /usr/share/foreman/templates, /etc/foreman/templates"
    );
    assert_eq!(template_candidates(None, Some("/e"), "/m", None)[0], "/e");
}

#[test]
fn the_first_task_asked_for_is_done() {
    assert!(matches!(run_mode(true, true, true, true, true), RunMode::InitProject));
    assert!(matches!(run_mode(false, true, true, true, true), RunMode::ValidateConfig));
    assert!(matches!(run_mode(false, false, true, true, true), RunMode::ProjectLint));
    assert!(matches!(run_mode(false, false, false, true, true), RunMode::Doctor));
    assert!(matches!(run_mode(false, false, false, false, true), RunMode::ConfigShowResolved));
    assert!(matches!(run_mode(false, false, false, false, false), RunMode::Serve));
}

#[test]
fn paths_of_the_service_are_found() {
    assert_eq!(directory("/a/b.toml"), "/a");
    assert_eq!(directory("b.toml"), "");
    assert_eq!(directory("/"), ".");
    assert_eq!(default_service_config_path(), "/etc/codex-foreman/config.toml");
    assert_eq!(resolve_state_path(None), "/var/lib/codex-foreman/foreman-state.json");
    assert_eq!(resolve_state_path(Some("/s.json".to_string())), "/s.json");
    assert_eq!(
        resolve_socket_path(None, "/p/.foreman/foreman-state.json"),
        ("/p/.foreman/foreman.sock".to_string(), Some("/p/.foreman".to_string()))
    );
    assert_eq!(resolve_socket_path(Some("/x.sock".to_string()), "/s"), ("/x.sock".to_string(), None));
    assert_eq!(lock_path("/run/foreman.sock"), "/run/foreman.sock.lock");
    assert!(check_socket_path("/x", true, false).is_ok());
    assert!(check_socket_path("/x", false, true).is_ok());
    assert_eq!(
        check_socket_path("/x", false, false).expect_err("directory").message(),
        "socket path '/x' exists and is not a regular file or socket"
    );
}

#[test]
fn one_service_runs_for_each_socket() {
    assert_eq!(lock_holder(" 42\n"), Some(42));
    assert_eq!(lock_holder("no number"), None);
    assert!(releases_lock("42", 42));
    assert!(!releases_lock("43", 42));
    assert!(!releases_lock("", 42));
    assert!(acquire_pid_lockfile("/s", "/s.lock", None, true, false).is_ok());
    assert!(acquire_pid_lockfile("/s", "/s.lock", Some(42), false, false).is_ok());
    assert!(acquire_pid_lockfile("/s", "/s.lock", Some(42), true, true).is_ok());
    let e = acquire_pid_lockfile("/s", "/s.lock", Some(42), true, false).expect_err("running");
    assert_eq!(
        e.message(),
        "another foreman instance is running for socket '/s'; lockfile '/s.lock' has active PID 42"
    );
    assert_eq!(
        error_hint(&e.full_message()),
        Some(
            "another foreman process is running; stop it first or retry with --force for crash \
             recovery"
        )
    );
    assert_eq!(
        error_hint("Address ALREADY in use"),
        Some(
            "socket is already in use; remove the stale socket file or choose a different \
             --socket-path"
        )
    );
    assert!(error_hint("failed to bind unix socket").is_some());
    assert_eq!(error_hint("out of memory"), None);
}

#[test]
fn versions_are_compared() {
    assert_eq!(extract_codex_version("codex-cli 0.46.0"), Some("0.46.0".to_string()));
    assert_eq!(extract_codex_version("codex v1.2.3-beta 7"), Some("7".to_string()));
    assert_eq!(extract_codex_version("no version"), None);
    assert!(verify_codex_binary_version("0.46.0", version(true, "codex-cli 0.46.0\n", "")).is_ok());
    assert!(verify_codex_binary_version("0.46.0", version(true, "", "codex 0.46.0")).is_ok());
    assert_eq!(
        verify_codex_binary_version("0.47.0", version(true, "codex-cli 0.46.0", ""))
            .expect_err("other")
            .message(),
        "unexpected codex version: expected=0.47.0, detected=0.46.0"
    );
    assert_eq!(
        verify_codex_binary_version("1", version(false, "", "")).expect_err("failed").message(),
        "codex --version failed with exit code: exit status: 3"
    );
    assert_eq!(
        verify_codex_binary_version("1", version(true, " x \n", "")).expect_err("none").message(),
        "failed to parse codex version from output: 'x'"
    );
    assert_eq!(
        verify_codex_binary_version("1", Err("gone".to_string()))
            .expect_err("gone")
            .full_message(),
        "failed to execute codex binary for version check: gone"
    );
}

#[test]
fn the_manifest_has_to_be_named() {
    assert_eq!(
        resolve_required_project_toml_path(Some("/p/project.toml".to_string()), true)
            .expect("named"),
        "/p/project.toml"
    );
    assert_eq!(
        resolve_required_project_toml_path(None, true).expect_err("none").message(),
        "[CFG_PROJECT_ARG_REQUIRED] --project <path-to-project.toml> is required"
    );
    assert_eq!(
        resolve_required_project_toml_path(Some("/p".to_string()), false)
            .expect_err("no file")
            .message(),
        "[CFG_PROJECT_PATH_INVALID] project path '/p' must point to a file"
    );
    assert_eq!(
        resolve_required_project_toml_path(Some("/p/other.toml".to_string()), true)
            .expect_err("other")
            .message(),
        "[CFG_PROJECT_PATH_INVALID] project path '/p/other.toml' must target 'project.toml'"
    );
}

#[test]
fn configurations_are_described() {
    let mut config = ServiceConfig::default();
    assert_eq!(
        describe_config(&config, &Vec::new()),
        vec!["foreman config validated: 0 callback profile(s) loaded", "warning: none"]
    );
    config.callbacks.profiles.insert("cmd".to_string(), command("notify", &["-a", "b\"c"]));
    config.callbacks.profiles.insert(
        "hook".to_string(),
        CallbackProfile::Webhook(WebhookCallbackProfile {
            url: "https://h".to_string(),
            secret_env: None,
            events: Some(vec!["turn/completed".to_string()]),
            timeout_ms: None,
        }),
    );
    config.callbacks.profiles.insert(
        "sock".to_string(),
        CallbackProfile::UnixSocket(UnixSocketCallbackProfile {
            socket: "/s".to_string(),
            events: None,
            timeout_ms: None,
        }),
    );
    assert_eq!(
        describe_config(&config, &vec!["careful".to_string()]),
        vec![
            "foreman config validated: 3 callback profile(s) loaded",
            " - cmd: command -> notify args:[\"-a\", \"b\\\"c\"] (events: None)",
            " - hook: webhook -> https://h (events: Some([\"turn/completed\"]))",
            " - sock: unix-socket -> /s (events: None)",
            "warning: careful",
        ]
    );
    let mut project: TextMap<CallbackProfile> = TextMap::new();
    project.insert("alpha".to_string(), command("x", &[]));
    project.insert("cmd".to_string(), command("x", &[]));
    assert_eq!(
        effective_callback_profiles(&config.callbacks.profiles, &project),
        vec!["alpha", "cmd", "hook", "sock"]
    );
}

#[test]
fn new_projects_get_their_files() {
    let files = init_project("/new", false, false, true).expect("free");
    assert_eq!(
        files,
        vec!["project.toml", "FOREMAN.md", "WORKER.md", "RUNBOOK.md", "HANDOFF.md", "MANUAL.md"]
    );
    assert_eq!(init_project("/new", true, true, false).expect("directory").len(), 5);
    assert_eq!(
        init_project("/new", true, false, false).expect_err("file").message(),
        "init path '/new' exists and is not a directory"
    );
    assert!(write_template_file("/new/a", false, false).is_ok());
    assert!(write_template_file("/new/a", true, true).is_ok());
    assert_eq!(
        write_template_file("/new/a", true, false).expect_err("there").message(),
        "file '/new/a' already exists, use --init-project-overwrite to replace"
    );
    assert_eq!(
        describe_scaffold("/new", &vec!["a".to_string()]),
        vec![
            "Initialized foreman project scaffold at: /new",
            "  - /new/a",
            "Use this path with POST /projects: {\"path\":\"/new\"}",
        ]
    );
}

#[test]
fn events_of_jobs_are_written_and_resumed() {
    assert_eq!(parse_last_event_id(Some("17")), Some(17));
    assert_eq!(parse_last_event_id(Some("x")), None);
    assert_eq!(parse_last_event_id(None), None);
    let event = JobEventEnvelope {
        job_id: 1,
        agent_id: 2,
        ts: 3,
        method: "turn/started".to_string(),
        params: parse_json("{\"a\":[1]}").expect("valid"),
    };
    assert_eq!(
        json_compact_value(&write_job_event(&event)),
        "{\"agent_id\":\"00000000-0000-0000-0000-000000000002\",\
         \"job_id\":\"00000000-0000-0000-0000-000000000001\",\"method\":\"turn/started\",\
         \"params\":{\"a\":[1]},\"ts\":3}"
    );
}

#[test]
fn requests_carry_the_token() {
    let bearer = runtime_auth(Some("Bearer"));
    let bare = runtime_auth(None);
    let text = |v: &str| HeaderValue::Text(v.to_string());
    assert_eq!(refusal(authorize(None, "/agents", &HeaderValue::Missing)), None);
    assert_eq!(refusal(authorize(Some(&bearer), "/health", &HeaderValue::Missing)), None);
    assert_eq!(
        refusal(authorize(Some(&bearer), "/health/x", &HeaderValue::Missing)),
        Some((401, "missing API authentication header".to_string()))
    );
    assert_eq!(refusal(authorize(Some(&bearer), "/agents", &text("Bearer s3cret"))), None);
    assert_eq!(refusal(authorize(Some(&bearer), "/agents", &text("BEARER s3cret"))), None);
    assert_eq!(refusal(authorize(Some(&bare), "/agents", &text("s3cret"))), None);
    assert_eq!(
        refusal(authorize(Some(&bearer), "/agents", &HeaderValue::Missing)),
        Some((401, "missing API authentication header".to_string()))
    );
    assert_eq!(
        refusal(authorize(Some(&bearer), "/agents", &HeaderValue::NotText)),
        Some((401, "invalid API auth header".to_string()))
    );
    assert_eq!(
        refusal(authorize(Some(&bearer), "/agents", &HeaderValue::InvalidName)),
        Some((500, "invalid API auth configuration".to_string()))
    );
    assert_eq!(
        refusal(authorize(Some(&bearer), "/agents", &text("s3cret"))),
        Some((401, "invalid API auth header format".to_string()))
    );
    assert_eq!(
        refusal(authorize(Some(&bearer), "/agents", &text("Basic s3cret"))),
        Some((401, "invalid API auth scheme".to_string()))
    );
    assert_eq!(
        refusal(authorize(Some(&bearer), "/agents", &text("Bearer wrong"))),
        Some((401, "invalid API token".to_string()))
    );
    assert_eq!(
        refusal(authorize(Some(&bare), "/agents", &text("Bearer s3cret"))),
        Some((401, "invalid API token".to_string()))
    );
}

#[test]
fn manifests_are_looked_through() {
    let none: TextMap<CallbackProfile> = TextMap::new();
    let raw = "name = \"x\"\nodd = 1\n[hooks]\na = 1\n[callbacks.worker]\ncallback_profile = \"p\"\n";
    let mut config = ProjectConfig::default();
    config.callbacks.worker.callback_profile = Some("p".to_string());
    config.callbacks.filters.push(CallbackFilter {
        name: "f".to_string(),
        callback_profile: "q".to_string(),
        tool: "shell".to_string(),
        command_pattern: "x".to_string(),
        debounce_ms: None,
    });
    let report =
        lint_project_toml("/p/project.toml", Ok(raw.to_string()), Ok(config.clone()), &none, false)
            .expect("readable");
    let found: Vec<(String, String)> =
        report.issues.iter().map(|i| (i.code.to_string(), i.path.clone())).collect();
    assert_eq!(found[0], ("CFG_PROJECT_PARSE".to_string(), "hooks".to_string()));
    assert!(found.contains(&("CFG_PROJECT_UNKNOWN_KEY".to_string(), "odd".to_string())));
    assert!(found.contains(&(
        "CFG_CALLBACK_PROFILE_MISSING".to_string(),
        "callbacks.worker.callback_profile".to_string()
    )));
    assert!(found.contains(&(
        "CFG_CALLBACK_PROFILE_MISSING".to_string(),
        "callbacks.filters[0].callback_profile".to_string()
    )));
    assert!(!report.fixed);
    let (lines, outcome) =
        run_project_lint_command(report, Some("no FOREMAN.md".to_string()), "/p/project.toml", false);
    assert_eq!(
        lines[0],
        format!("project lint found {} issue(s): /p/project.toml", found.len() + 1)
    );
    assert_eq!(lines[lines.len() - 1], "[CFG_RUNTIME_IO] prompts: no FOREMAN.md");
    assert_eq!(
        outcome.expect_err("issues").message(),
        format!("[CFG_PROJECT_VALIDATION] project lint failed with {} issue(s)", found.len() + 1)
    );

    let mut known: TextMap<CallbackProfile> = TextMap::new();
    known.insert("p".to_string(), command("x", &[]));
    known.insert("q".to_string(), command("x", &[]));
    let clean = lint_project_toml(
        "/p/project.toml",
        Ok("name = \"x\"\n".to_string()),
        Ok(config.clone()),
        &known,
        true,
    )
    .expect("readable");
    assert!(clean.issues.is_empty());
    let (lines, outcome) = run_project_lint_command(clean, None, "/p/project.toml", true);
    assert_eq!(
        lines,
        vec!["project lint passed: /p/project.toml", "autofix: no safe rewrites required"]
    );
    assert!(outcome.is_ok());
}

#[test]
fn manifests_that_cannot_be_read_are_refused() {
    let none: TextMap<CallbackProfile> = TextMap::new();
    let e = lint_project_toml(
        "/p",
        Err("no such file".to_string()),
        Ok(ProjectConfig::default()),
        &none,
        false,
    )
    .expect_err("unreadable");
    assert_eq!(
        e.full_message(),
        "CFG_PROJECT_PATH_INVALID failed to read project config /p: no such file"
    );
    assert!(lint_project_toml(
        "/p",
        Ok("name = ".to_string()),
        Ok(ProjectConfig::default()),
        &none,
        false
    )
    .is_err());
    assert!(lint_project_toml(
        "/p",
        Ok("name = 3".to_string()),
        Err("expected a string".to_string()),
        &none,
        false
    )
    .is_err());
    let mut wrong = ProjectConfig::default();
    wrong.prompts.foreman_file = "".to_string();
    assert!(lint_project_toml("/p", Ok("".to_string()), Ok(wrong), &none, false).is_err());
}

#[test]
fn the_doctor_counts_failures() {
    let mut service = ServiceConfig::default();
    service.callbacks.profiles.insert("cmd".to_string(), command("/bin/notify", &[]));
    let mut project = ProjectConfig::default();
    project.callbacks.profiles.insert("own".to_string(), command("/bin/gone", &[]));
    let findings = Findings {
        binary: BinaryProbe::Ended("exit status: 1".to_string()),
        project: Ok(project),
        runtime_problem: None,
        runtime_dir: RuntimeDirProbe::Writable,
        has_git: false,
        programs: vec!["/bin/notify".to_string()],
    };
    let report = examine("/p/project.toml", "/p", "codex", &service, &findings);
    assert_eq!(report.project, "/p/project.toml");
    assert_eq!(report.checks[0].id, "codex_binary");
    assert_eq!(
        report.checks[0].message,
        "'codex --version' failed with exit code exit status: 1"
    );
    assert_eq!(count_checks(&report.checks, CheckStatus::Fail), 2);
    assert_eq!(count_checks(&report.checks, CheckStatus::Warn), 1);
    let (line, outcome) = run_doctor_command(&report);
    assert_eq!(line, "doctor summary: failures=2 warnings=1");
    assert_eq!(
        outcome.expect_err("failures").message(),
        "[WK_DOCTOR_FAILED] doctor found 2 failure(s)"
    );
    let told: Vec<String> = report.checks.iter().map(|c| c.message.clone()).collect();
    assert!(told.contains(&"project callback profile 'own' command '/bin/gone' does not exist".to_string()));
    assert!(told.contains(&"service callback profile 'cmd' command exists: /bin/notify".to_string()));
    assert!(told.contains(&"runtime directory is writable: /p/.foreman".to_string()));

    let findings = Findings {
        binary: BinaryProbe::Succeeded,
        project: Ok(ProjectConfig::default()),
        runtime_problem: None,
        runtime_dir: RuntimeDirProbe::Writable,
        has_git: true,
        programs: Vec::new(),
    };
    let report = examine("/p/project.toml", "/p", "codex", &ServiceConfig::default(), &findings);
    let (line, outcome) = run_doctor_command(&report);
    assert_eq!(line, "doctor summary: failures=0 warnings=0");
    assert!(outcome.is_ok());
    assert_eq!(status_name(report.checks[0].status), "pass");

    let findings = Findings {
        binary: BinaryProbe::NotStarted("missing".to_string()),
        project: Err(ForemanError::from_text("broken")),
        runtime_problem: None,
        runtime_dir: RuntimeDirProbe::NotCreated("denied".to_string()),
        has_git: true,
        programs: Vec::new(),
    };
    let report = examine("/p/project.toml", "/p", "codex", &ServiceConfig::default(), &findings);
    assert_eq!(count_checks(&report.checks, CheckStatus::Fail), 3);
    assert_eq!(report.checks[2].message, "broken");
}

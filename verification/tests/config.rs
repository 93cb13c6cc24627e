use codex_foreman::config::{
    AppServerConfig, AuthConfig, CallbackProfile, CommandCallbackProfile, ConfigFile,
    SecurityConfig, ServiceConfig, UnixSocketCallbackProfile, WebhookCallbackProfile,
    WorkerMonitoringConfig,
};
use codex_foreman::constants;
use codex_foreman::text_map::TextMap;

fn no_env() -> Result<String, String> {
    Err("environment variable not found".to_string())
}

fn with_auth(token: Option<&str>, token_env: Option<&str>) -> ServiceConfig {
    ServiceConfig {
        security: SecurityConfig {
            auth: Some(AuthConfig {
                enabled: true,
                token: token.map(|t| t.to_string()),
                token_env: token_env.map(|t| t.to_string()),
                header_name: None,
                header_scheme: None,
                skip_paths: Vec::new(),
            }),
        },
        ..ServiceConfig::default()
    }
}

fn command(program: &str, timeout_ms: Option<u64>) -> CallbackProfile {
    CallbackProfile::Command(CommandCallbackProfile {
        program: program.to_string(),
        args: Vec::new(),
        prompt_prefix: None,
        events: None,
        timeout_ms,
        env: TextMap::new(),
        event_prompt_variable: None,
        shell: None,
    })
}

fn problem_of(name: &str, profile: CallbackProfile) -> String {
    let mut config = ServiceConfig::default();
    config.callbacks.profiles.insert(name.to_string(), profile);
    config.validate().expect_err("profile is wrong").message()
}

#[test]
fn load_missing_file_returns_default_config() {
    let config = ServiceConfig::load("/tmp/does-not-exist-foreman.toml", ConfigFile::Missing)
        .expect("load missing file");
    assert_eq!(
        config.app_server.initialize_timeout_ms,
        constants::DEFAULT_APP_SERVER_INITIALIZE_TIMEOUT_MS
    );
    assert_eq!(
        config.app_server.request_timeout_ms,
        constants::DEFAULT_APP_SERVER_REQUEST_TIMEOUT_MS
    );
    assert!(config.callbacks.profiles.is_empty());
    assert!(config.security.auth.is_none());
    assert!(config.protocol.expected_codex_version.is_none());
    assert!(!config.worker_monitoring.enabled);
}

#[test]
fn unreadable_and_malformed_config_files_are_told_apart() {
    let e = ServiceConfig::load("/etc/x.toml", ConfigFile::Unreadable("denied".to_string()))
        .expect_err("unreadable");
    assert_eq!(e.full_message(), "failed to read config file: /etc/x.toml: denied");
    let e = ServiceConfig::load("/etc/x.toml", ConfigFile::Malformed("line 3".to_string()))
        .expect_err("malformed");
    assert_eq!(e.full_message(), "invalid callback config format: line 3");
    let mut config = ServiceConfig::default();
    config.app_server.request_timeout_ms = 7;
    let kept = ServiceConfig::load("/etc/x.toml", ConfigFile::Holds(config)).expect("holds");
    assert_eq!(kept.app_server_timeouts(), (5_000, 7));
}

#[test]
fn app_server_timeout_defaults_are_valid() {
    let config = ServiceConfig::default();
    assert_eq!(
        config.app_server.initialize_timeout_ms,
        constants::DEFAULT_APP_SERVER_INITIALIZE_TIMEOUT_MS
    );
    assert_eq!(
        config.app_server.request_timeout_ms,
        constants::DEFAULT_APP_SERVER_REQUEST_TIMEOUT_MS
    );
    assert!(!config.worker_monitoring.enabled);
    assert_eq!(
        config.worker_monitoring.inactivity_timeout_ms,
        constants::DEFAULT_WORKER_MONITORING_INACTIVITY_TIMEOUT_MS
    );
    assert_eq!(
        config.worker_monitoring.max_restarts,
        constants::DEFAULT_WORKER_MONITORING_MAX_RESTARTS
    );
    assert_eq!(
        config.worker_monitoring.watch_interval_ms,
        constants::DEFAULT_WORKER_MONITORING_WATCH_INTERVAL_MS
    );
}

#[test]
fn worker_monitoring_defaults_validate() {
    let config = ServiceConfig {
        worker_monitoring: WorkerMonitoringConfig::default(),
        ..ServiceConfig::default()
    };
    assert!(!config.worker_monitoring.enabled);
    assert!(config.validate().is_ok());
}

#[test]
fn invalid_worker_monitoring_timeout_is_rejected() {
    let config = ServiceConfig {
        worker_monitoring: WorkerMonitoringConfig {
            enabled: true,
            inactivity_timeout_ms: 0,
            max_restarts: 1,
            watch_interval_ms: 500,
        },
        ..ServiceConfig::default()
    };
    assert!(config.validate().is_err());
}

#[test]
fn zero_restart_limits_are_allowed_with_warning_when_enabled() {
    let config = ServiceConfig {
        worker_monitoring: WorkerMonitoringConfig {
            enabled: true,
            inactivity_timeout_ms: 2_000,
            max_restarts: 0,
            watch_interval_ms: 500,
        },
        ..ServiceConfig::default()
    };
    let warnings = config.validate().expect("validation should pass");
    assert_eq!(warnings.len(), 1);
    assert!(warnings[0].contains("workers will fail after timeout"));
}

#[test]
fn custom_app_server_timeouts_validate() {
    let config = ServiceConfig {
        app_server: AppServerConfig {
            initialize_timeout_ms: 50,
            request_timeout_ms: 100,
        },
        ..ServiceConfig::default()
    };
    assert!(config.validate().is_ok());
}

#[test]
fn zero_timeout_app_server_settings_are_rejected() {
    let config = ServiceConfig {
        app_server: AppServerConfig {
            initialize_timeout_ms: 0,
            request_timeout_ms: 30_000,
        },
        ..ServiceConfig::default()
    };
    assert!(config.validate().is_err());

    let config = ServiceConfig {
        app_server: AppServerConfig {
            initialize_timeout_ms: 5_000,
            request_timeout_ms: 0,
        },
        ..ServiceConfig::default()
    };
    assert!(config.validate().is_err());
}

#[test]
fn validate_reports_unknown_default_profile() {
    let mut config = ServiceConfig::default();
    config.callbacks.default_profile = Some("missing-profile".to_string());

    let err = config
        .validate()
        .expect_err("missing default profile must fail");
    assert!(err.message().contains("missing-profile"));
}

#[test]
fn resolve_auth_prefers_token_over_env_with_warning() {
    let config = with_auth(Some("inline-token"), Some("CODEX_FOREMAN_AUTH_TEST_TOKEN"));

    let warnings = config.validate().expect("validated auth config");
    assert_eq!(warnings.len(), 1);
    assert!(warnings[0].contains("token is configured"));

    let resolved = config
        .resolve_auth_config(no_env())
        .expect("resolve auth config")
        .expect("auth enabled");
    assert_eq!(resolved.token, "inline-token");
    assert_eq!(resolved.header_name, constants::DEFAULT_AUTH_HEADER_NAME);
    assert_eq!(
        resolved.skip_paths,
        vec![constants::DEFAULT_AUTH_SKIP_PATH.to_string()]
    );
}

#[test]
fn resolve_auth_reads_token_from_environment() {
    let var_name = "CODEX_FOREMAN_AUTH_TEST_TOKEN_ENV";
    let config = ServiceConfig {
        security: SecurityConfig {
            auth: Some(AuthConfig {
                enabled: true,
                token: None,
                token_env: Some(var_name.to_string()),
                header_name: Some("x-api-key".to_string()),
                header_scheme: None,
                skip_paths: vec!["/custom-health".to_string()],
            }),
        },
        ..ServiceConfig::default()
    };
    assert_eq!(config.token_variable(), Some(var_name.to_string()));

    let resolved = config
        .resolve_auth_config(Ok("env-token".to_string()))
        .expect("resolve auth config")
        .expect("auth enabled");

    assert_eq!(resolved.token, "env-token");
    assert_eq!(resolved.header_name, "x-api-key");
    assert_eq!(resolved.skip_paths, vec!["/custom-health".to_string()]);
}

#[test]
fn resolve_auth_rejects_empty_token() {
    let config = with_auth(Some("   "), None);
    assert!(config.resolve_auth_config(no_env()).is_err());
}

#[test]
fn auth_errors_name_what_is_missing() {
    let e = with_auth(None, Some("TOKEN_VAR"))
        .resolve_auth_config(no_env())
        .expect_err("variable is not set");
    assert_eq!(
        e.full_message(),
        "failed to read API token from env var 'TOKEN_VAR': environment variable not found"
    );
    let e = with_auth(None, None).resolve_auth_config(no_env()).expect_err("no token");
    assert_eq!(e.message(), "auth is enabled but token or token_env is not configured");
    let e = with_auth(None, None).validate().expect_err("no token");
    assert_eq!(e.message(), "auth is enabled but token or token_env is not configured");
    let e = with_auth(Some(" "), None).resolve_auth_config(no_env()).expect_err("blank");
    assert_eq!(e.message(), "resolved API token is empty");
    assert!(ServiceConfig::default().resolve_auth_config(no_env()).expect("off").is_none());
}

#[test]
fn profiles_are_checked() {
    assert_eq!(problem_of("p", command(" ", None)), "callback profile 'p' has an empty command program");
    assert_eq!(
        problem_of("p", command("/bin/{{x}}", None)),
        "callback profile 'p' must use a static command program path (templates are not allowed)"
    );
    assert_eq!(
        problem_of("p", command("bin/x", None)),
        "callback profile 'p' command program must be an absolute path"
    );
    assert_eq!(
        problem_of(
            "w",
            CallbackProfile::Webhook(WebhookCallbackProfile {
                url: "  ".to_string(),
                secret_env: None,
                events: None,
                timeout_ms: None,
            })
        ),
        "callback profile 'w' has an empty webhook url"
    );
    assert_eq!(
        problem_of(
            "s",
            CallbackProfile::UnixSocket(UnixSocketCallbackProfile {
                socket: String::new(),
                events: None,
                timeout_ms: None,
            })
        ),
        "callback profile 's' has an empty unix socket path"
    );
}

#[test]
fn a_timeout_of_zero_is_warned_of() {
    let mut config = ServiceConfig::default();
    config.callbacks.profiles.insert("p".to_string(), command("/bin/true", Some(0)));
    assert_eq!(
        config.validate().expect("in order"),
        vec!["callback profile 'p' uses timeout_ms=0 (no timeout)".to_string()]
    );
    assert_eq!(config.get_callback_profile("p").expect("there").timeout_ms(), Some(0));
    assert!(config.get_callback_profile("q").is_none());
    assert_eq!(config.expected_codex_version(), None);
    assert_eq!(config.default_callback_profile(), None);
}

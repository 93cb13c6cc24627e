//! The service configuration: its types, its defaults and what makes it valid.
use vstd::prelude::*;

use crate::constants;
use crate::error::ForemanError;
use crate::json;
use crate::models::{clone_opt_texts, clone_texts, clone_vars};
use crate::text;
use crate::text::trim;
use crate::text_map::TextMap;
use crate::text_search::{contains, starts_with};

verus! {

/// The configuration of the service.
#[derive(Debug)]
pub struct ServiceConfig {
    pub app_server: AppServerConfig,
    pub protocol: ProtocolConfig,
    pub callbacks: CallbackRegistry,
    pub worker_monitoring: WorkerMonitoringConfig,
    pub security: SecurityConfig,
    pub budgets: BudgetsConfig,
}

/// When a worker counts as stalled and how often it is started again.
#[derive(Debug, Clone, Copy)]
pub struct WorkerMonitoringConfig {
    pub enabled: bool,
    pub inactivity_timeout_ms: u64,
    pub max_restarts: u32,
    pub watch_interval_ms: u64,
}

/// What is expected of the app server's protocol.
#[derive(Debug, Clone)]
pub struct ProtocolConfig {
    pub expected_codex_version: Option<String>,
}

/// How long the app server may take.
#[derive(Debug, Clone, Copy)]
pub struct AppServerConfig {
    pub initialize_timeout_ms: u64,
    pub request_timeout_ms: u64,
}

/// Who may call the service.
#[derive(Debug, Clone)]
pub struct SecurityConfig {
    pub auth: Option<AuthConfig>,
}

/// How a caller is recognised.
#[derive(Debug, Clone)]
pub struct AuthConfig {
    pub enabled: bool,
    pub token_env: Option<String>,
    pub token: Option<String>,
    pub header_name: Option<String>,
    pub header_scheme: Option<String>,
    pub skip_paths: Vec<String>,
}

/// How a caller is recognised, with the token at hand.
#[derive(Debug, Clone)]
pub struct RuntimeAuthConfig {
    pub token: String,
    pub header_name: String,
    pub header_scheme: Option<String>,
    pub skip_paths: Vec<String>,
}

/// The callback profiles of the service.
#[derive(Debug)]
pub struct CallbackRegistry {
    pub default_profile: Option<String>,
    pub profiles: TextMap<CallbackProfile>,
}

/// A callback that fires when a tool runs a certain command.
#[derive(Debug)]
pub struct CallbackFilter {
    pub name: String,
    pub callback_profile: String,
    pub tool: String,
    pub command_pattern: String,
    pub debounce_ms: Option<u64>,
}

/// Where a callback goes.
#[derive(Debug)]
pub enum CallbackProfile {
    Webhook(WebhookCallbackProfile),
    Command(CommandCallbackProfile),
    UnixSocket(UnixSocketCallbackProfile),
}

/// A callback that posts to a URL.
#[derive(Debug)]
pub struct WebhookCallbackProfile {
    pub url: String,
    pub secret_env: Option<String>,
    pub events: Option<Vec<String>>,
    pub timeout_ms: Option<u64>,
}

/// A callback that runs a program.
#[derive(Debug)]
pub struct CommandCallbackProfile {
    pub program: String,
    pub args: Vec<String>,
    pub prompt_prefix: Option<String>,
    pub events: Option<Vec<String>>,
    pub timeout_ms: Option<u64>,
    pub env: TextMap<String>,
    pub event_prompt_variable: Option<String>,
    pub shell: Option<bool>,
}

/// A callback that writes to a socket.
#[derive(Debug)]
pub struct UnixSocketCallbackProfile {
    pub socket: String,
    pub events: Option<Vec<String>>,
    pub timeout_ms: Option<u64>,
}

/// What a worker may use up.
#[derive(Debug, Clone, Copy)]
pub struct BudgetsConfig {
    pub defaults: BudgetDefaultsConfig,
}

/// The limits of each worker and what happens past them.
#[derive(Debug, Clone, Copy)]
pub struct BudgetDefaultsConfig {
    pub max_tokens: u64,
    pub max_duration_ms: u64,
    pub on_exceed: BudgetOnExceed,
}

/// What happens to a worker past its budget.
#[derive(Debug, Clone, Copy, PartialEq, Eq, Structural)]
pub enum BudgetOnExceed {
    Warn,
    Pause,
    Kill,
}

pub fn default_worker_monitoring_enabled() -> (r: bool)
    ensures
        r == constants::DEFAULT_WORKER_MONITORING_ENABLED,
{
    constants::DEFAULT_WORKER_MONITORING_ENABLED
}

pub fn default_worker_monitoring_inactivity_timeout_ms() -> (r: u64)
    ensures
        r == constants::DEFAULT_WORKER_MONITORING_INACTIVITY_TIMEOUT_MS,
{
    constants::DEFAULT_WORKER_MONITORING_INACTIVITY_TIMEOUT_MS
}

pub fn default_worker_monitoring_max_restarts() -> (r: u32)
    ensures
        r == constants::DEFAULT_WORKER_MONITORING_MAX_RESTARTS,
{
    constants::DEFAULT_WORKER_MONITORING_MAX_RESTARTS
}

pub fn default_worker_monitoring_watch_interval_ms() -> (r: u64)
    ensures
        r == constants::DEFAULT_WORKER_MONITORING_WATCH_INTERVAL_MS,
{
    constants::DEFAULT_WORKER_MONITORING_WATCH_INTERVAL_MS
}

pub fn default_app_server_initialize_timeout_ms() -> (r: u64)
    ensures
        r == constants::DEFAULT_APP_SERVER_INITIALIZE_TIMEOUT_MS,
{
    constants::DEFAULT_APP_SERVER_INITIALIZE_TIMEOUT_MS
}

pub fn default_app_server_request_timeout_ms() -> (r: u64)
    ensures
        r == constants::DEFAULT_APP_SERVER_REQUEST_TIMEOUT_MS,
{
    constants::DEFAULT_APP_SERVER_REQUEST_TIMEOUT_MS
}

impl Default for WorkerMonitoringConfig {
    fn default() -> (r: Self)
        ensures
            r == (WorkerMonitoringConfig {
                enabled: constants::DEFAULT_WORKER_MONITORING_ENABLED,
                inactivity_timeout_ms: constants::DEFAULT_WORKER_MONITORING_INACTIVITY_TIMEOUT_MS,
                max_restarts: constants::DEFAULT_WORKER_MONITORING_MAX_RESTARTS,
                watch_interval_ms: constants::DEFAULT_WORKER_MONITORING_WATCH_INTERVAL_MS,
            }),
    {
        WorkerMonitoringConfig {
            enabled: default_worker_monitoring_enabled(),
            inactivity_timeout_ms: default_worker_monitoring_inactivity_timeout_ms(),
            max_restarts: default_worker_monitoring_max_restarts(),
            watch_interval_ms: default_worker_monitoring_watch_interval_ms(),
        }
    }
}

impl Default for AppServerConfig {
    fn default() -> (r: Self)
        ensures
            r == (AppServerConfig {
                initialize_timeout_ms: constants::DEFAULT_APP_SERVER_INITIALIZE_TIMEOUT_MS,
                request_timeout_ms: constants::DEFAULT_APP_SERVER_REQUEST_TIMEOUT_MS,
            }),
    {
        AppServerConfig {
            initialize_timeout_ms: default_app_server_initialize_timeout_ms(),
            request_timeout_ms: default_app_server_request_timeout_ms(),
        }
    }
}

impl Default for BudgetDefaultsConfig {
    /// No limit.
    fn default() -> (r: Self)
        ensures
            r == (BudgetDefaultsConfig {
                max_tokens: u64::MAX,
                max_duration_ms: u64::MAX,
                on_exceed: BudgetOnExceed::Warn,
            }),
    {
        BudgetDefaultsConfig {
            max_tokens: u64::MAX,
            max_duration_ms: u64::MAX,
            on_exceed: BudgetOnExceed::Warn,
        }
    }
}

impl Default for CallbackRegistry {
    fn default() -> (r: Self)
        ensures
            r.default_profile is None,
            r.profiles.items().len() == 0,
            r.profiles@ == Map::<Seq<char>, CallbackProfile>::empty(),
    {
        CallbackRegistry { default_profile: None, profiles: TextMap::new() }
    }
}

/// Whether a configuration is that of a service for which nothing is configured.
pub open spec fn is_default(c: ServiceConfig) -> bool {
    &&& c.app_server.initialize_timeout_ms == constants::DEFAULT_APP_SERVER_INITIALIZE_TIMEOUT_MS
    &&& c.app_server.request_timeout_ms == constants::DEFAULT_APP_SERVER_REQUEST_TIMEOUT_MS
    &&& c.protocol.expected_codex_version is None
    &&& c.callbacks.default_profile is None
    &&& c.callbacks.profiles.items().len() == 0
    &&& c.callbacks.profiles@ == Map::<Seq<char>, CallbackProfile>::empty()
    &&& c.worker_monitoring == (WorkerMonitoringConfig {
        enabled: constants::DEFAULT_WORKER_MONITORING_ENABLED,
        inactivity_timeout_ms: constants::DEFAULT_WORKER_MONITORING_INACTIVITY_TIMEOUT_MS,
        max_restarts: constants::DEFAULT_WORKER_MONITORING_MAX_RESTARTS,
        watch_interval_ms: constants::DEFAULT_WORKER_MONITORING_WATCH_INTERVAL_MS,
    })
    &&& c.security.auth is None
    &&& c.budgets.defaults == (BudgetDefaultsConfig {
        max_tokens: u64::MAX,
        max_duration_ms: u64::MAX,
        on_exceed: BudgetOnExceed::Warn,
    })
}

impl Default for ServiceConfig {
    fn default() -> (r: Self)
        ensures
            is_default(r),
    {
        ServiceConfig {
            app_server: AppServerConfig::default(),
            protocol: ProtocolConfig { expected_codex_version: None },
            callbacks: CallbackRegistry::default(),
            worker_monitoring: WorkerMonitoringConfig::default(),
            security: SecurityConfig { auth: None },
            budgets: BudgetsConfig { defaults: BudgetDefaultsConfig::default() },
        }
    }
}

/// A quoted name between two texts.
pub open spec fn about_profile(name: Seq<char>, rest: Seq<char>) -> Seq<char> {
    "callback profile '"@ + name + rest
}

/// The time limit of a profile.
pub open spec fn profile_timeout(profile: CallbackProfile) -> Option<u64> {
    match profile {
        CallbackProfile::Webhook(p) => p.timeout_ms,
        CallbackProfile::Command(p) => p.timeout_ms,
        CallbackProfile::UnixSocket(p) => p.timeout_ms,
    }
}

/// What is wrong with a profile: a program that is empty, that holds a template or whose path
/// is not absolute, a URL that is empty, a socket path that is empty.
pub open spec fn profile_problem(name: Seq<char>, profile: CallbackProfile) -> Option<Seq<char>> {
    match profile {
        CallbackProfile::Command(p) => if text::is_blank(p.program@) {
            Some(about_profile(name, "' has an empty command program"@))
        } else if text::has_text(p.program@, "{{"@) || text::has_text(p.program@, "}}"@) {
            Some(
                about_profile(
                    name,
                    "' must use a static command program path (templates are not allowed)"@,
                ),
            )
        } else if !text::begins(text::trimmed(p.program@), "/"@) {
            Some(about_profile(name, "' command program must be an absolute path"@))
        } else {
            None
        },
        CallbackProfile::Webhook(p) => if text::is_blank(p.url@) {
            Some(about_profile(name, "' has an empty webhook url"@))
        } else {
            None
        },
        CallbackProfile::UnixSocket(p) => if text::is_blank(p.socket@) {
            Some(about_profile(name, "' has an empty unix socket path"@))
        } else {
            None
        },
    }
}

/// What is wrong with the first profile that is wrong.
pub open spec fn profiles_problem(items: Seq<(Seq<char>, CallbackProfile)>) -> Option<Seq<char>>
    decreases items.len(),
{
    if items.len() == 0 {
        None
    } else {
        json::either(
            profiles_problem(items.drop_last()),
            profile_problem(items.last().0, items.last().1),
        )
    }
}

/// One warning for each profile whose time limit is switched off.
pub open spec fn profiles_warnings(items: Seq<(Seq<char>, CallbackProfile)>) -> Seq<Seq<char>>
    decreases items.len(),
{
    if items.len() == 0 {
        Seq::empty()
    } else {
        let rest = profiles_warnings(items.drop_last());
        if profile_timeout(items.last().1) == Some(0u64) {
            rest.push(about_profile(items.last().0, "' uses timeout_ms=0 (no timeout)"@))
        } else {
            rest
        }
    }
}

/// What is wrong with the timeouts and the monitoring.
pub open spec fn limits_problem(config: ServiceConfig) -> Option<Seq<char>> {
    if config.app_server.initialize_timeout_ms == 0 {
        Some("app_server.initialize_timeout_ms must be greater than 0"@)
    } else if config.app_server.request_timeout_ms == 0 {
        Some("app_server.request_timeout_ms must be greater than 0"@)
    } else if config.worker_monitoring.enabled && config.worker_monitoring.inactivity_timeout_ms
        == 0 {
        Some("worker_monitoring.inactivity_timeout_ms must be greater than 0"@)
    } else if config.worker_monitoring.enabled && config.worker_monitoring.watch_interval_ms == 0 {
        Some("worker_monitoring.watch_interval_ms must be greater than 0"@)
    } else {
        None
    }
}

/// The default profile must be one of the profiles.
pub open spec fn default_profile_problem(config: ServiceConfig) -> Option<Seq<char>> {
    match config.callbacks.default_profile {
        Some(name) => if config.callbacks.profiles@.dom().contains(name@) {
            None
        } else {
            Some(
                "default_profile '"@ + name@ + "' is not defined in callbacks.profiles"@,
            )
        },
        None => None,
    }
}

/// Whether authentication is switched on.
pub open spec fn auth_enabled(security: SecurityConfig) -> bool {
    security.auth matches Some(auth) && auth.enabled
}

/// The message for authentication that is switched on without a token.
pub open spec fn no_token_message() -> Seq<char> {
    "auth is enabled but token or token_env is not configured"@
}

/// Authentication that is switched on needs a token.
pub open spec fn auth_problem(security: SecurityConfig) -> Option<Seq<char>> {
    match security.auth {
        Some(auth) => if auth.enabled && auth.token is None && auth.token_env is None {
            Some(no_token_message())
        } else {
            None
        },
        None => None,
    }
}

/// The first thing that is wrong with a configuration.
pub open spec fn config_problem(config: ServiceConfig) -> Option<Seq<char>> {
    json::either(
        limits_problem(config),
        json::either(
            default_profile_problem(config),
            json::either(
                profiles_problem(config.callbacks.profiles.items()),
                auth_problem(config.security),
            ),
        ),
    )
}

/// The warnings on a configuration: for restarts that are switched off, for time limits that
/// are switched off, and for a token that hides another.
pub open spec fn config_warnings(config: ServiceConfig) -> Seq<Seq<char>> {
    let monitoring = if config.worker_monitoring.enabled && config.worker_monitoring.max_restarts
        == 0 {
        seq!["worker_monitoring.max_restarts is 0 (workers will fail after timeout)"@]
    } else {
        Seq::empty()
    };
    let auth = if config.security.auth matches Some(a) && a.enabled && a.token is Some
        && a.token_env is Some {
        seq!["auth.token is configured and will take precedence over auth.token_env"@]
    } else {
        Seq::empty()
    };
    monitoring + profiles_warnings(config.callbacks.profiles.items()) + auth
}

impl CallbackProfile {
    /// The time limit of the profile.
    pub fn timeout_ms(&self) -> (r: Option<u64>)
        ensures
            r == profile_timeout(*self),
    {
        match self {
            CallbackProfile::Webhook(p) => p.timeout_ms,
            CallbackProfile::Command(p) => p.timeout_ms,
            CallbackProfile::UnixSocket(p) => p.timeout_ms,
        }
    }
}

/// `callback profile '<name><rest>`.
fn profile_message(name: &str, rest: &str) -> (r: String)
    ensures
        r@ == about_profile(name@, rest@),
{
    let mut message = "callback profile '".to_owned();
    message.append(name);
    message.append(rest);
    message
}

/// What is wrong with a profile.
fn check_profile(name: &str, profile: &CallbackProfile) -> (r: Option<String>)
    ensures
        text::opt_text(r) == profile_problem(name@, *profile),
{
    match profile {
        CallbackProfile::Command(p) => {
            if text::trims_to_empty(p.program.as_str()) {
                Some(profile_message(name, "' has an empty command program"))
            } else if contains(p.program.as_str(), "{{") || contains(p.program.as_str(), "}}") {
                Some(
                    profile_message(
                        name,
                        "' must use a static command program path (templates are not allowed)",
                    ),
                )
            } else if !starts_with(trim(p.program.as_str()).as_str(), "/") {
                Some(profile_message(name, "' command program must be an absolute path"))
            } else {
                None
            }
        },
        CallbackProfile::Webhook(p) => {
            if text::trims_to_empty(p.url.as_str()) {
                Some(profile_message(name, "' has an empty webhook url"))
            } else {
                None
            }
        },
        CallbackProfile::UnixSocket(p) => {
            if text::trims_to_empty(p.socket.as_str()) {
                Some(profile_message(name, "' has an empty unix socket path"))
            } else {
                None
            }
        },
    }
}

/// What is wrong with the first profile that is wrong, and the warnings on all of them.
fn check_profiles(profiles: &TextMap<CallbackProfile>) -> (r: (Option<String>, Vec<String>))
    ensures
        text::opt_text(r.0) == profiles_problem(profiles.items()),
        text::texts(r.1@) == profiles_warnings(profiles.items()),
{
    let n: usize = profiles.len();
    let mut problem: Option<String> = None;
    let mut warnings: Vec<String> = Vec::new();
    let mut i: usize = 0;
    while i < n
        invariant
            i <= n,
            n == profiles.items().len(),
            text::opt_text(problem) == profiles_problem(profiles.items().take(i as int)),
            text::texts(warnings@) == profiles_warnings(profiles.items().take(i as int)),
        decreases n - i,
    {
        proof {
            let part = profiles.items().take(i + 1);
            assert(part.drop_last() == profiles.items().take(i as int));
            assert(part.last() == profiles.items()[i as int]);
        }
        let name = profiles.key_at(i);
        let profile = profiles.value_at(i);
        if let Some(0) = profile.timeout_ms() {
            let warning = profile_message(name.as_str(), "' uses timeout_ms=0 (no timeout)");
            assert(text::texts(warnings@.push(warning)) == text::texts(warnings@).push(warning@));
            warnings.push(warning);
        }
        if problem.is_none() {
            problem = check_profile(name.as_str(), profile);
        }
        i += 1;
    }
    assert(profiles.items().take(n as int) == profiles.items());
    (problem, warnings)
}

/// What came of reading the file of a configuration.
#[derive(Debug)]
pub enum ConfigFile {
    /// There is none.
    Missing,
    /// It could not be read, for this reason.
    Unreadable(String),
    /// Its text is no configuration, for this reason.
    Malformed(String),
    /// It holds this configuration.
    Holds(ServiceConfig),
}

impl ServiceConfig {
    /// The configuration of the service: the default where there is no file for it.
    pub fn load(path: &str, file: ConfigFile) -> (r: Result<ServiceConfig, ForemanError>)
        ensures
            match file {
                ConfigFile::Missing => r matches Ok(c) && is_default(c),
                ConfigFile::Unreadable(cause) => r matches Err(e) && e@ == seq![
                    "failed to read config file: "@ + path@,
                    cause@,
                ],
                ConfigFile::Malformed(cause) => r matches Err(e) && e@ == seq![
                    "invalid callback config format"@,
                    cause@,
                ],
                ConfigFile::Holds(config) => r matches Ok(c) && c == config,
            },
    {
        match file {
            ConfigFile::Missing => Ok(ServiceConfig::default()),
            ConfigFile::Unreadable(cause) => {
                let mut message = "failed to read config file: ".to_owned();
                message.append(path);
                let e = ForemanError::new(cause).context(message);
                assert(e@ == seq![message@, cause@]);
                Err(e)
            },
            ConfigFile::Malformed(cause) => {
                let e = ForemanError::new(cause).context(
                    "invalid callback config format".to_owned(),
                );
                assert(e@ == seq!["invalid callback config format"@, cause@]);
                Err(e)
            },
            ConfigFile::Holds(config) => Ok(config),
        }
    }

    /// The name of the default profile.
    pub fn default_callback_profile(&self) -> (r: Option<String>)
        ensures
            r == self.callbacks.default_profile,
    {
        self.callbacks.default_profile.clone()
    }

    /// The profile of a name.
    pub fn get_callback_profile(&self, name: &str) -> (r: Option<&CallbackProfile>)
        ensures
            r is Some == self.callbacks.profiles@.dom().contains(name@),
            r matches Some(p) ==> *p == self.callbacks.profiles@[name@],
    {
        self.callbacks.profiles.get(name)
    }

    /// The first thing that is wrong with the timeouts and the monitoring.
    fn check_limits(&self) -> (r: Option<String>)
        ensures
            text::opt_text(r) == limits_problem(*self),
    {
        if self.app_server.initialize_timeout_ms == 0 {
            Some("app_server.initialize_timeout_ms must be greater than 0".to_owned())
        } else if self.app_server.request_timeout_ms == 0 {
            Some("app_server.request_timeout_ms must be greater than 0".to_owned())
        } else if self.worker_monitoring.enabled && self.worker_monitoring.inactivity_timeout_ms
            == 0 {
            Some("worker_monitoring.inactivity_timeout_ms must be greater than 0".to_owned())
        } else if self.worker_monitoring.enabled && self.worker_monitoring.watch_interval_ms == 0 {
            Some("worker_monitoring.watch_interval_ms must be greater than 0".to_owned())
        } else {
            None
        }
    }

    /// The warnings on the configuration, or the first thing that is wrong with it.
    pub fn validate(&self) -> (r: Result<Vec<String>, ForemanError>)
        ensures
            match r {
                Ok(warnings) => {
                    &&& config_problem(*self) is None
                    &&& text::texts(warnings@) == config_warnings(*self)
                },
                Err(e) => config_problem(*self) matches Some(problem) && e@ == seq![problem],
            },
    {
        if let Some(problem) = self.check_limits() {
            return Err(ForemanError::new(problem));
        }
        let mut warnings: Vec<String> = Vec::new();
        if self.worker_monitoring.enabled && self.worker_monitoring.max_restarts == 0 {
            warnings.push(
                "worker_monitoring.max_restarts is 0 (workers will fail after timeout)".to_owned(),
            );
        }
        let ghost monitoring = text::texts(warnings@);
        if let Some(name) = &self.callbacks.default_profile {
            if !self.callbacks.profiles.contains_key(name.as_str()) {
                let mut message = "default_profile '".to_owned();
                message.append(name.as_str());
                message.append("' is not defined in callbacks.profiles");
                return Err(ForemanError::new(message));
            }
        }
        let checked = check_profiles(&self.callbacks.profiles);
        if let Some(problem) = checked.0 {
            return Err(ForemanError::new(problem));
        }
        let mut profile_warnings = checked.1;
        let ghost profile_texts = text::texts(profile_warnings@);
        proof {
            assert(text::texts(warnings@ + profile_warnings@) == monitoring + profile_texts);
        }
        warnings.append(&mut profile_warnings);
        if let Some(auth) = &self.security.auth {
            if auth.enabled {
                if auth.token.is_none() && auth.token_env.is_none() {
                    return Err(
                        ForemanError::from_text(
                            "auth is enabled but token or token_env is not configured",
                        ),
                    );
                }
                if auth.token.is_some() && auth.token_env.is_some() {
                    let warning =
                        "auth.token is configured and will take precedence over auth.token_env".to_owned();
                    assert(text::texts(warnings@.push(warning)) == text::texts(warnings@).push(
                        warning@,
                    ));
                    warnings.push(warning);
                }
            }
        }
        assert(monitoring == (if self.worker_monitoring.enabled
            && self.worker_monitoring.max_restarts == 0 {
            seq!["worker_monitoring.max_restarts is 0 (workers will fail after timeout)"@]
        } else {
            Seq::empty()
        }));
        assert(text::texts(warnings@) == config_warnings(*self));
        Ok(warnings)
    }

    /// How long the app server may take to start and to answer.
    pub fn app_server_timeouts(&self) -> (r: (u64, u64))
        ensures
            r.0 == self.app_server.initialize_timeout_ms,
            r.1 == self.app_server.request_timeout_ms,
    {
        (self.app_server.initialize_timeout_ms, self.app_server.request_timeout_ms)
    }

    /// The version that is expected of the app server.
    pub fn expected_codex_version(&self) -> (r: Option<&str>)
        ensures
            r is Some == self.protocol.expected_codex_version is Some,
            r matches Some(v) ==> v@ == self.protocol.expected_codex_version->0@,
    {
        match &self.protocol.expected_codex_version {
            Some(v) => Some(v.as_str()),
            None => None,
        }
    }
}

/// Whether two values say the same.
pub open spec fn same_webhook_profile(a: WebhookCallbackProfile, b: WebhookCallbackProfile) -> bool {
    &&& a.url@ == b.url@
    &&& text::opt_text(a.secret_env) == text::opt_text(b.secret_env)
    &&& text::opt_texts(a.events) == text::opt_texts(b.events)
    &&& a.timeout_ms == b.timeout_ms
}

impl Clone for WebhookCallbackProfile {
    fn clone(&self) -> (r: Self)
        ensures
            same_webhook_profile(*self, r),
    {
        WebhookCallbackProfile {
            url: self.url.clone(),
            secret_env: self.secret_env.clone(),
            events: clone_opt_texts(&self.events),
            timeout_ms: self.timeout_ms,
        }
    }
}

/// Whether two values say the same.
pub open spec fn same_command_profile(a: CommandCallbackProfile, b: CommandCallbackProfile) -> bool {
    &&& a.program@ == b.program@
    &&& text::texts(a.args@) == text::texts(b.args@)
    &&& text::opt_text(a.prompt_prefix) == text::opt_text(b.prompt_prefix)
    &&& text::opt_texts(a.events) == text::opt_texts(b.events)
    &&& a.timeout_ms == b.timeout_ms
    &&& a.env.items() == b.env.items()
    &&& text::opt_text(a.event_prompt_variable) == text::opt_text(b.event_prompt_variable)
    &&& a.shell == b.shell
}

impl Clone for CommandCallbackProfile {
    fn clone(&self) -> (r: Self)
        ensures
            same_command_profile(*self, r),
    {
        CommandCallbackProfile {
            program: self.program.clone(),
            args: clone_texts(&self.args),
            prompt_prefix: self.prompt_prefix.clone(),
            events: clone_opt_texts(&self.events),
            timeout_ms: self.timeout_ms,
            env: clone_vars(&self.env),
            event_prompt_variable: self.event_prompt_variable.clone(),
            shell: self.shell,
        }
    }
}

/// Whether two values say the same.
pub open spec fn same_socket_profile(a: UnixSocketCallbackProfile, b: UnixSocketCallbackProfile) -> bool {
    &&& a.socket@ == b.socket@
    &&& text::opt_texts(a.events) == text::opt_texts(b.events)
    &&& a.timeout_ms == b.timeout_ms
}

impl Clone for UnixSocketCallbackProfile {
    fn clone(&self) -> (r: Self)
        ensures
            same_socket_profile(*self, r),
    {
        UnixSocketCallbackProfile {
            socket: self.socket.clone(),
            events: clone_opt_texts(&self.events),
            timeout_ms: self.timeout_ms,
        }
    }
}

/// Whether two values say the same.
pub open spec fn same_filter(a: CallbackFilter, b: CallbackFilter) -> bool {
    &&& a.name@ == b.name@
    &&& a.callback_profile@ == b.callback_profile@
    &&& a.tool@ == b.tool@
    &&& a.command_pattern@ == b.command_pattern@
    &&& a.debounce_ms == b.debounce_ms
}

impl Clone for CallbackFilter {
    fn clone(&self) -> (r: Self)
        ensures
            same_filter(*self, r),
    {
        CallbackFilter {
            name: self.name.clone(),
            callback_profile: self.callback_profile.clone(),
            tool: self.tool.clone(),
            command_pattern: self.command_pattern.clone(),
            debounce_ms: self.debounce_ms,
        }
    }
}

/// Whether two profiles say the same.
pub open spec fn same_profile(a: CallbackProfile, b: CallbackProfile) -> bool {
    match (a, b) {
        (CallbackProfile::Webhook(x), CallbackProfile::Webhook(y)) => same_webhook_profile(x, y),
        (CallbackProfile::Command(x), CallbackProfile::Command(y)) => same_command_profile(x, y),
        (CallbackProfile::UnixSocket(x), CallbackProfile::UnixSocket(y)) => same_socket_profile(
            x,
            y,
        ),
        _ => false,
    }
}

impl Clone for CallbackProfile {
    fn clone(&self) -> (r: Self)
        ensures
            same_profile(*self, r),
    {
        match self {
            CallbackProfile::Webhook(p) => CallbackProfile::Webhook(p.clone()),
            CallbackProfile::Command(p) => CallbackProfile::Command(p.clone()),
            CallbackProfile::UnixSocket(p) => CallbackProfile::UnixSocket(p.clone()),
        }
    }
}

/// Whether two lists of profiles say the same.
pub open spec fn same_profiles(a: TextMap<CallbackProfile>, b: TextMap<CallbackProfile>) -> bool {
    &&& a.items().len() == b.items().len()
    &&& forall|i: int|
        0 <= i < a.items().len() ==> (#[trigger] a.items()[i]).0 == b.items()[i].0 && same_profile(
            a.items()[i].1,
            b.items()[i].1,
        )
}

/// Whether two lists of filters say the same.
pub open spec fn same_filters(a: Seq<CallbackFilter>, b: Seq<CallbackFilter>) -> bool {
    &&& a.len() == b.len()
    &&& forall|i: int| 0 <= i < a.len() ==> same_filter(#[trigger] a[i], b[i])
}

/// A copy of the profiles.
pub fn clone_profiles(profiles: &TextMap<CallbackProfile>) -> (r: TextMap<CallbackProfile>)
    ensures
        same_profiles(*profiles, r),
{
    profiles.clone()
}

/// A copy of the filters.
pub fn clone_filters(filters: &Vec<CallbackFilter>) -> (r: Vec<CallbackFilter>)
    ensures
        same_filters(filters@, r@),
{
    filters.clone()
}

/// What is not set has these values: both times of the app server, no monitoring, a budget without
/// bounds that only warns, and nothing else.
pub proof fn law_defaults_bind_nothing(c: ServiceConfig)
    requires
        is_default(c),
    ensures
        c.app_server.initialize_timeout_ms == 5000,
        c.app_server.request_timeout_ms == 30000,
        !c.worker_monitoring.enabled,
        c.worker_monitoring.inactivity_timeout_ms == 3000,
        c.worker_monitoring.max_restarts == 1,
        c.worker_monitoring.watch_interval_ms == 750,
        c.budgets.defaults.max_tokens == u64::MAX,
        c.budgets.defaults.max_duration_ms == u64::MAX,
        c.budgets.defaults.on_exceed == BudgetOnExceed::Warn,
        c.security.auth is None,
        c.callbacks.default_profile is None,
        config_problem(c) is None,
{
    assert(profiles_problem(c.callbacks.profiles.items()) is None);
}

/// A profile is in order where it names its target: one that runs a command names an absolute
/// program without a template, one that posts an address, and one of a socket its path.
pub proof fn law_profiles_name_their_target(name: Seq<char>, profile: CallbackProfile)
    ensures
        profile is Webhook ==> (profile_problem(name, profile) is None <==> !text::is_blank(
            profile->Webhook_0.url@,
        )),
        profile is UnixSocket ==> (profile_problem(name, profile) is None <==> !text::is_blank(
            profile->UnixSocket_0.socket@,
        )),
        profile is Command ==> (profile_problem(name, profile) is None <==> {
            let program = profile->Command_0.program@;
            &&& !text::is_blank(program)
            &&& !text::has_text(program, "{{"@) && !text::has_text(program, "}}"@)
            &&& text::begins(text::trimmed(program), "/"@)
        }),
        profile_problem(name, profile) is Some ==> text::begins(
            profile_problem(name, profile)->0,
            "callback profile '"@ + name,
        ),
{
    if profile_problem(name, profile) is Some {
        let p = profile_problem(name, profile)->0;
        let head = "callback profile '"@ + name;
        assert(p.subrange(0, head.len() as int) == head);
        assert(text::occurs_at(p, head, 0));
    }
}

/// The profiles are in order where each of them is.
pub proof fn law_profiles_are_checked_each(items: Seq<(Seq<char>, CallbackProfile)>)
    ensures
        profiles_problem(items) is None <==> (forall|i: int|
            0 <= i < items.len() ==> profile_problem((#[trigger] items[i]).0, items[i].1) is None),
    decreases items.len(),
{
    if items.len() > 0 {
        let rest = items.drop_last();
        law_profiles_are_checked_each(rest);
        assert(items.last() == items[items.len() - 1]);
        assert forall|i: int| 0 <= i < rest.len() implies rest[i] == #[trigger] items[i] by {}
        if profiles_problem(items) is Some && (forall|i: int|
            0 <= i < items.len() ==> profile_problem((#[trigger] items[i]).0, items[i].1) is None) {
            assert forall|i: int| 0 <= i < rest.len() implies profile_problem(
                (#[trigger] rest[i]).0,
                rest[i].1,
            ) is None by {
                assert(rest[i] == items[i]);
            }
            assert(profile_problem(items[items.len() - 1].0, items[items.len() - 1].1) is None);
        }
        if profiles_problem(items) is None {
            assert forall|i: int| 0 <= i < items.len() implies profile_problem(
                (#[trigger] items[i]).0,
                items[i].1,
            ) is None by {
                if i < rest.len() {
                    assert(rest[i] == items[i]);
                }
            }
        }
    }
}

/// A configuration is in order exactly where no time is nothing, the profile by default is there,
/// every profile is in order, and a token is to be had where one is asked for.
pub proof fn law_configurations_in_order(c: ServiceConfig)
    ensures
        config_problem(c) is None <==> {
            &&& c.app_server.initialize_timeout_ms > 0
            &&& c.app_server.request_timeout_ms > 0
            &&& c.worker_monitoring.enabled ==> c.worker_monitoring.inactivity_timeout_ms > 0
                && c.worker_monitoring.watch_interval_ms > 0
            &&& c.callbacks.default_profile is Some ==> c.callbacks.profiles@.dom().contains(
                c.callbacks.default_profile->0@,
            )
            &&& forall|i: int|
                0 <= i < c.callbacks.profiles.items().len() ==> profile_problem(
                    (#[trigger] c.callbacks.profiles.items()[i]).0,
                    c.callbacks.profiles.items()[i].1,
                ) is None
            &&& c.security.auth is Some && c.security.auth->0.enabled
                ==> c.security.auth->0.token is Some || c.security.auth->0.token_env is Some
        },
{
    law_profiles_are_checked_each(c.callbacks.profiles.items());
}

/// A warning is given of each profile that waits without end, and of restarts that there are none
/// of.
pub proof fn law_endless_waits_are_warned_of(
    items: Seq<(Seq<char>, CallbackProfile)>,
    name: Seq<char>,
    profile: CallbackProfile,
    c: ServiceConfig,
)
    ensures
        profile_timeout(profile) == Some(0u64) ==> profiles_warnings(items.push((name, profile)))
            == profiles_warnings(items).push(
            "callback profile '"@ + name + "' uses timeout_ms=0 (no timeout)"@,
        ),
        profile_timeout(profile) != Some(0u64) ==> profiles_warnings(items.push((name, profile)))
            == profiles_warnings(items),
        profiles_warnings(Seq::<(Seq<char>, CallbackProfile)>::empty()).len() == 0,
        profile is Webhook ==> profile_timeout(profile) == profile->Webhook_0.timeout_ms,
        profile is Command ==> profile_timeout(profile) == profile->Command_0.timeout_ms,
        profile is UnixSocket ==> profile_timeout(profile) == profile->UnixSocket_0.timeout_ms,
        c.worker_monitoring.enabled && c.worker_monitoring.max_restarts == 0 ==> config_warnings(
            c,
        ).len() > profiles_warnings(c.callbacks.profiles.items()).len(),
        !c.worker_monitoring.enabled && c.security.auth is None ==> config_warnings(c)
            == profiles_warnings(c.callbacks.profiles.items()),
{
    assert(items.push((name, profile)).drop_last() == items);
}

} // verus!

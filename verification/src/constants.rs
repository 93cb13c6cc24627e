//! Names, routes, statuses and default values.
use vstd::prelude::*;

verus! {

pub const APP_NAME: &'static str = "foreman";
pub const APP_DESCRIPTION: &'static str = "foreman";

pub const DEFAULT_CODEX_BINARY: &'static str = "codex";
pub const DEFAULT_SERVICE_CONFIG_PATH: &'static str = "/etc/codex-foreman/config.toml";
pub const DEFAULT_LOG_FILTER: &'static str = "foreman=debug";

pub const FOREMAN_RUNTIME_DIR: &'static str = ".foreman";
pub const FOREMAN_STATUS_READY: &'static str = "ready";
pub const FOREMAN_SOCKET_FILENAME: &'static str = "foreman.sock";
pub const DEFAULT_STATE_FILENAME: &'static str = "foreman-state.json";
pub const DEFAULT_STATE_PATH: &'static str = "/var/lib/codex-foreman/foreman-state.json";
pub const FOREMAN_SOCKET_PERMISSIONS: u32 = 384;
pub const EVENT_BUFFER_MAX: usize = 50;
pub const BROADCAST_CHANNEL_CAPACITY: usize = 256;
pub const STATUS_OK: &'static str = "ok";
pub const DEFAULT_WORKING_DIRECTORY: &'static str = ".";
pub const HEALTH_ROUTE: &'static str = "/health";
pub const STATUS_ROUTE: &'static str = "/status";
pub const ROUTE_AGENTS: &'static str = "/agents";
pub const ROUTE_AGENT_ID: &'static str = "/agents/{id}";
pub const ROUTE_AGENT_RESULT: &'static str = "/agents/{id}/result";
pub const ROUTE_AGENT_WAIT: &'static str = "/agents/{id}/wait";
pub const ROUTE_AGENT_EVENTS: &'static str = "/agents/{id}/events";
pub const ROUTE_AGENT_SEND: &'static str = "/agents/{id}/send";
pub const ROUTE_AGENT_STEER: &'static str = "/agents/{id}/steer";
pub const ROUTE_AGENT_INTERRUPT: &'static str = "/agents/{id}/interrupt";
pub const ROUTE_PROJECTS: &'static str = "/projects";
pub const ROUTE_PROJECT_ID: &'static str = "/projects/{id}";
pub const ROUTE_PROJECT_WORKERS: &'static str = "/projects/{id}/workers";
pub const ROUTE_PROJECT_FOREMAN_SEND: &'static str = "/projects/{id}/foreman/send";
pub const ROUTE_PROJECT_FOREMAN_STEER: &'static str = "/projects/{id}/foreman/steer";
pub const ROUTE_PROJECT_COMPACT: &'static str = "/projects/{id}/compact";
pub const ROUTE_PROJECT_CALLBACK_STATUS: &'static str = "/projects/{id}/callback-status";
pub const ROUTE_PROJECT_JOBS: &'static str = "/projects/{id}/jobs";
pub const ROUTE_JOBS: &'static str = "/jobs";
pub const ROUTE_JOB_ID: &'static str = "/jobs/{id}";
pub const ROUTE_JOB_RESULT: &'static str = "/jobs/{id}/result";
pub const ROUTE_JOB_WAIT: &'static str = "/jobs/{id}/wait";

pub const TEMPLATE_DIR_ENV: &'static str = "CODEX_FOREMAN_TEMPLATE_DIR";
pub const TEMPLATE_DIR_SHARE: &'static str = "/usr/share/foreman/templates";
pub const TEMPLATE_DIR_ETC: &'static str = "/etc/foreman/templates";

pub const PROJECT_CONFIG_FILE: &'static str = "project.toml";
pub const PROJECT_STATUS_READY: &'static str = "running";
pub const DEFAULT_FOREMAN_PROMPT_FILE: &'static str = "FOREMAN.md";
pub const DEFAULT_WORKER_PROMPT_FILE: &'static str = "WORKER.md";
pub const DEFAULT_RUNBOOK_FILE: &'static str = "RUNBOOK.md";
pub const DEFAULT_HANDOFF_FILE: &'static str = "HANDOFF.md";
pub const DEFAULT_MANUAL_FILE: &'static str = "MANUAL.md";
pub const DEFAULT_PROJECT_NAME: &'static str = "project";

pub const DEFAULT_APP_SERVER_INITIALIZE_TIMEOUT_MS: u64 = 5_000;
pub const DEFAULT_APP_SERVER_REQUEST_TIMEOUT_MS: u64 = 30_000;
pub const DEFAULT_WORKER_MONITORING_ENABLED: bool = false;
pub const DEFAULT_WORKER_MONITORING_INACTIVITY_TIMEOUT_MS: u64 = 3_000;
pub const DEFAULT_WORKER_MONITORING_MAX_RESTARTS: u32 = 1;
pub const DEFAULT_WORKER_MONITORING_WATCH_INTERVAL_MS: u64 = 750;

pub const DEFAULT_WORKER_CALLBACK_TIMEOUT_MS: u64 = 5_000;
pub const MIN_WORKER_MONITOR_INTERVAL_MS: u64 = 50;
pub const DEFAULT_WAIT_POLL_MS: u64 = 250;
pub const DEFAULT_RESTART_MONITORING_DELAY_MS: u64 = 50;
pub const MILLISECONDS_PER_SECOND: u64 = 1000;

pub const CODEX_EVENT_METHOD_PREFIX: &'static str = "codex/event/";

pub const EVENT_METHOD_TURN_COMPLETED: &'static str = "turn/completed";
pub const EVENT_METHOD_TURN_ABORTED: &'static str = "turn/aborted";
pub const EVENT_METHOD_TURN_STARTED: &'static str = "turn/started";
pub const THREAD_EVENT_STARTED: &'static str = "thread/status/changed";
pub const EVENT_METHOD_ITEM_AGENT_MESSAGE: &'static str = "item/agentMessage";
pub const EVENT_METHOD_ITEM_AGENT_MESSAGE_DELTA: &'static str = "item/agentMessage/delta";
pub const EVENT_METHOD_ITEM_COMPLETED: &'static str = "item/completed";
pub const EVENT_STATUS_COMPLETED: &'static str = "completed";
pub const EVENT_STATUS_ABORTED: &'static str = "aborted";
pub const EVENT_STATUS_INTERRUPTED: &'static str = "interrupted";
pub const EVENT_STATUS_FAILED: &'static str = "failed";
pub const EVENT_STATUS_ERROR: &'static str = "error";
pub const EVENT_STATUS_STOPPED: &'static str = "stopped";
pub const EVENT_STATUS_TIMEOUT: &'static str = "timeout";
pub const EVENT_STATUS_TIMED_OUT: &'static str = "timed_out";

pub const AGENT_STATUS_IDLE: &'static str = "idle";
pub const AGENT_STATUS_RUNNING: &'static str = "running";
pub const AGENT_STATUS_RESTARTING: &'static str = "restarting";
pub const AGENT_STATUS_FAILED: &'static str = "failed";
pub const AGENT_STATUS_ABORTED: &'static str = "aborted";
pub const AGENT_STATUS_INTERRUPTED: &'static str = "interrupted";
pub const AGENT_STATUS_COMPLETED: &'static str = "completed";
pub const AGENT_STATUS_ORPHANED: &'static str = "orphaned";
pub const AGENT_STATUS_UNKNOWN: &'static str = "unknown";

pub const JOB_STATUS_EMPTY: &'static str = "empty";
pub const JOB_STATUS_RUNNING: &'static str = "running";
pub const JOB_STATUS_PARTIAL: &'static str = "partial";
pub const JOB_STATUS_QUEUED: &'static str = "queued";
pub const JOB_STATUS_COMPLETED: &'static str = "completed";
pub const JOB_STATUS_FAILED: &'static str = "failed";
pub const JOB_STATUS_UNKNOWN: &'static str = "unknown";

pub const AGENT_ROLE_FOREMAN: &'static str = "foreman";
pub const AGENT_ROLE_WORKER: &'static str = "worker";
pub const AGENT_ROLE_STANDALONE: &'static str = "standalone";

pub const CALLBACK_SECRET_HEADER: &'static str = "x-foreman-secret";
pub const CALLBACK_EVENT_JSON_KEY: &'static str = "event_json";
pub const CALLBACK_EVENT_PRETTY_KEY: &'static str = "event_pretty";
pub const CALLBACK_EVENT_PAYLOAD_KEY: &'static str = "event_payload";
pub const CALLBACK_EVENT_PROMPT_KEY: &'static str = "event_prompt";
pub const CALLBACK_EVENT_TYPE_KEY: &'static str = "callback_type";
pub const CALLBACK_EVENT_TYPE_AGENT_EVENT: &'static str = "agent-event";
pub const CALLBACK_VAR_AGENT_ID: &'static str = "agent_id";
pub const CALLBACK_VAR_WORKER_ID: &'static str = "worker_id";
pub const CALLBACK_VAR_THREAD_ID: &'static str = "thread_id";
pub const CALLBACK_VAR_METHOD: &'static str = "method";
pub const CALLBACK_VAR_EVENT_ID: &'static str = "event_id";
pub const CALLBACK_VAR_ROLE: &'static str = "agent_role";
pub const CALLBACK_VAR_TURN_ID: &'static str = "turn_id";
pub const CALLBACK_VAR_TS: &'static str = "ts";
pub const CALLBACK_VAR_PROJECT_ID: &'static str = "project_id";
pub const CALLBACK_VAR_FOREMAN_ID: &'static str = "foreman_id";
pub const CALLBACK_VAR_RESULT: &'static str = "result";
pub const CALLBACK_VAR_CALLBACK_VARS: &'static str = "callback_vars";
pub const CALLBACK_VAR_EVENT_PAYLOAD: &'static str = "event_payload";
pub const CALLBACK_VAR_WORKSPACE_PROMPT: &'static str = "event_prompt";
pub const CALLBACK_VAR_REASON: &'static str = "reason";
pub const CALLBACK_PROMPT_DEFAULT: &'static str = "event_prompt";
pub const PROJECT_VAR_ID: &'static str = "project_id";
pub const PROJECT_VAR_PATH: &'static str = "project_path";
pub const PROJECT_VAR_NAME: &'static str = "project_name";
pub const PROJECT_VAR_STATUS: &'static str = "project_status";
pub const PROJECT_VAR_FOREMAN_ID: &'static str = "project_foreman_id";
pub const PROJECT_LIFECYCLE_START: &'static str = "start";
pub const PROJECT_LIFECYCLE_COMPACT: &'static str = "compact";
pub const PROJECT_LIFECYCLE_STOP: &'static str = "stop";
pub const PROJECT_LIFECYCLE_WORKER_COMPLETED: &'static str = "worker_completed";
pub const PROJECT_LIFECYCLE_WORKER_ABORTED: &'static str = "worker_aborted";
pub const PROJECT_LIFECYCLE_EVENT_START: &'static str = "project/lifecycle/start";
pub const PROJECT_LIFECYCLE_EVENT_COMPACT: &'static str = "project/lifecycle/compact";
pub const PROJECT_LIFECYCLE_EVENT_STOP: &'static str = "project/lifecycle/stop";
pub const PROJECT_LIFECYCLE_EVENT_WORKER_COMPLETED: &'static str = "project/lifecycle/worker/completed";
pub const PROJECT_LIFECYCLE_EVENT_WORKER_ABORTED: &'static str = "project/lifecycle/worker/aborted";
pub const PROJECT_LIFECYCLE_COMPACTION_REASON: &'static str = "compact";
pub const PROJECT_COMPACT_SUMMARY_PREFIX: &'static str = "compact_after_turns threshold";
pub const PROJECT_LIFECYCLE_COMPACT_PROMPT: &'static str = "---\nHandoff requested by project coordinator.\n";
pub const PROJECT_LIFECYCLE_COMPACT_PROMPT_PREFIX: &'static str = "REASON:";
pub const PROJECT_LIFECYCLE_PROMPT_PREFIX: &'static str = "PROMPT:";
pub const PROJECT_TASK_LABEL: &'static str = "TASK\n";
pub const PROJECT_RUNBOOK_LABEL: &'static str = "RUNBOOK\n";
pub const PROJECT_HOMEDOWN_TEXT: &'static str = "---\n";

pub const PROJECT_CALLBACK_STATUS_NEVER_RUN: &'static str = "never_run";
pub const PROJECT_CALLBACK_STATUS_DISABLED: &'static str = "disabled";
pub const PROJECT_CALLBACK_STATUS_SKIPPED: &'static str = "skipped";
pub const PROJECT_CALLBACK_STATUS_SUCCESS: &'static str = "success";
pub const PROJECT_CALLBACK_STATUS_FAILED: &'static str = "failed";

pub const WORKTREE_VERIFY_COMMAND: &'static str = "rev-parse";
pub const WORKTREE_VERIFY_ARG: &'static str = "--is-inside-work-tree";
pub const WORKTREE_BASE_REF_DEFAULT: &'static str = "HEAD";
pub const WORKTREE_GIT_COMMAND: &'static str = "git";
pub const WORKTREE_COMMAND: &'static str = "worktree";
pub const WORKTREE_ARG_ADD: &'static str = "add";
pub const WORKTREE_ARG_DETACH: &'static str = "--detach";
pub const WORKTREE_OPTION_WORKDIR: &'static str = "-C";


pub const APP_SERVER_COMMAND: &'static str = "app-server";
pub const APP_SERVER_METHOD_INITIALIZE: &'static str = "initialize";
pub const APP_SERVER_METHOD_INITIALIZED: &'static str = "initialized";
pub const APP_SERVER_UNHANDLED_ERROR_CODE: i64 = -32601;
pub const APP_SERVER_UNHANDLED_MESSAGE: &'static str = "Request not handled by foreman";

pub const APP_SERVER_METHOD_THREAD_INTERRUPT: &'static str = "thread/interrupt";
pub const APP_SERVER_METHOD_TURN_INTERRUPT: &'static str = "turn/interrupt";
pub const APP_SERVER_METHOD_THREAD_START: &'static str = "thread/start";
pub const APP_SERVER_METHOD_TURN_START: &'static str = "turn/start";
pub const APP_SERVER_METHOD_TURN_STEER: &'static str = "turn/steer";

pub const DEFAULT_AUTH_HEADER_NAME: &'static str = "authorization";
pub const DEFAULT_AUTH_SKIP_PATH: &'static str = "/health";
pub const PERSISTED_STATE_VERSION: u32 = 1;

pub const APP_SERVER_ID_KEY: &'static str = "threadId";

pub const AGENT_STATUS_BLOCKED: &'static str = "blocked";
pub const AGENT_STATUS_PAUSED: &'static str = "paused";
pub const AGENT_STATUS_THROTTLED: &'static str = "throttled";
pub const EVENT_METHOD_ITEM_STARTED: &'static str = "item/started";

/// The first backoff after a rate limit.
pub const GOVERNOR_BACKOFF_INITIAL_MS: u64 = 1_000;
/// The longest backoff after rate limits.
pub const GOVERNOR_BACKOFF_MAX_MS: u64 = 60_000;
pub const DEFAULT_BUDGET_WATCH_INTERVAL_MS: u64 = 1_000;

pub const JOB_EVENT_CHANNEL_CAPACITY: usize = 256;
pub const AGENT_PROGRESS_CHANNEL_CAPACITY: usize = 256;
pub const FOREMAN_LOCK_FILENAME: &'static str = "foreman.lock";
pub const ROUTE_AGENT_LOGS: &'static str = "/agents/{id}/logs";
pub const ROUTE_JOB_EVENTS: &'static str = "/jobs/{id}/events";

pub const ERROR_CODE_CFG_PROJECT_PARSE: &'static str = "CFG_PROJECT_PARSE";
pub const ERROR_CODE_CFG_PROJECT_VALIDATION: &'static str = "CFG_PROJECT_VALIDATION";
pub const ERROR_CODE_CFG_PROJECT_UNKNOWN_KEY: &'static str = "CFG_PROJECT_UNKNOWN_KEY";
pub const ERROR_CODE_CFG_PROJECT_PATH_INVALID: &'static str = "CFG_PROJECT_PATH_INVALID";
pub const ERROR_CODE_CFG_PROJECT_ARG_REQUIRED: &'static str = "CFG_PROJECT_ARG_REQUIRED";
pub const ERROR_CODE_CFG_CALLBACK_PROFILE_MISSING: &'static str = "CFG_CALLBACK_PROFILE_MISSING";
pub const ERROR_CODE_CFG_RUNTIME_IO: &'static str = "CFG_RUNTIME_IO";
pub const ERROR_CODE_CFG_SERVICE_INVALID: &'static str = "CFG_SERVICE_INVALID";
pub const ERROR_CODE_CB_COMMAND_INVALID: &'static str = "CB_COMMAND_INVALID";
pub const ERROR_CODE_WK_DOCTOR_FAILED: &'static str = "WK_DOCTOR_FAILED";

} // verus!

//! Agents: what the service knows of each.
use vstd::prelude::*;

use crate::constants;
use crate::json;
use crate::json::{JsonNumber, RealNumber};
use crate::models;
use crate::models::{clone_opt_texts, clone_vars, AgentEventDto, AgentResult, FailureReport};
use crate::text;
use crate::text_map::TextMap;
use crate::vars;

verus! {

/// A callback that posts to a URL.
#[derive(Debug)]
pub struct WorkerWebhookCallback {
    pub url: String,
    pub secret: Option<String>,
    pub events: Option<Vec<String>>,
    pub timeout_ms: Option<u64>,
    pub vars: TextMap<String>,
}

/// A callback that writes to a socket.
#[derive(Debug)]
pub struct WorkerUnixSocketCallback {
    pub socket: String,
    pub events: Option<Vec<String>>,
    pub timeout_ms: Option<u64>,
    pub vars: TextMap<String>,
}

/// A callback by the name of its profile.
#[derive(Debug)]
pub struct WorkerProfileCallback {
    pub profile: String,
    pub prompt_prefix: Option<String>,
    pub command_args: Option<Vec<String>>,
    pub events: Option<Vec<String>>,
    pub vars: TextMap<String>,
}

/// Where the events of an agent go.
#[derive(Debug)]
pub enum WorkerCallback {
    Unset,
    Webhook(WorkerWebhookCallback),
    UnixSocket(WorkerUnixSocketCallback),
    Profile(WorkerProfileCallback),
}

/// What a callback stands for.
pub enum CallbackView {
    Unset,
    Webhook {
        url: Seq<char>,
        secret: Option<Seq<char>>,
        events: Option<Seq<Seq<char>>>,
        timeout_ms: Option<u64>,
        vars: Map<Seq<char>, Seq<char>>,
    },
    UnixSocket {
        socket: Seq<char>,
        events: Option<Seq<Seq<char>>>,
        timeout_ms: Option<u64>,
        vars: Map<Seq<char>, Seq<char>>,
    },
    Profile {
        profile: Seq<char>,
        prompt_prefix: Option<Seq<char>>,
        command_args: Option<Seq<Seq<char>>>,
        events: Option<Seq<Seq<char>>>,
        vars: Map<Seq<char>, Seq<char>>,
    },
}

impl View for WorkerCallback {
    type V = CallbackView;

    open spec fn view(&self) -> CallbackView {
        match self {
            WorkerCallback::Unset => CallbackView::Unset,
            WorkerCallback::Webhook(c) => CallbackView::Webhook {
                url: c.url@,
                secret: text::opt_text(c.secret),
                events: text::opt_texts(c.events),
                timeout_ms: c.timeout_ms,
                vars: vars::values_of(c.vars@),
            },
            WorkerCallback::UnixSocket(c) => CallbackView::UnixSocket {
                socket: c.socket@,
                events: text::opt_texts(c.events),
                timeout_ms: c.timeout_ms,
                vars: vars::values_of(c.vars@),
            },
            WorkerCallback::Profile(c) => CallbackView::Profile {
                profile: c.profile@,
                prompt_prefix: text::opt_text(c.prompt_prefix),
                command_args: text::opt_texts(c.command_args),
                events: text::opt_texts(c.events),
                vars: vars::values_of(c.vars@),
            },
        }
    }
}

impl Clone for WorkerCallback {
    fn clone(&self) -> (r: Self)
        ensures
            r@ == self@,
    {
        match self {
            WorkerCallback::Unset => WorkerCallback::Unset,
            WorkerCallback::Webhook(c) => WorkerCallback::Webhook(
                WorkerWebhookCallback {
                    url: c.url.clone(),
                    secret: c.secret.clone(),
                    events: clone_opt_texts(&c.events),
                    timeout_ms: c.timeout_ms,
                    vars: clone_vars(&c.vars),
                },
            ),
            WorkerCallback::UnixSocket(c) => WorkerCallback::UnixSocket(
                WorkerUnixSocketCallback {
                    socket: c.socket.clone(),
                    events: clone_opt_texts(&c.events),
                    timeout_ms: c.timeout_ms,
                    vars: clone_vars(&c.vars),
                },
            ),
            WorkerCallback::Profile(c) => WorkerCallback::Profile(
                WorkerProfileCallback {
                    profile: c.profile.clone(),
                    prompt_prefix: c.prompt_prefix.clone(),
                    command_args: clone_opt_texts(&c.command_args),
                    events: clone_opt_texts(&c.events),
                    vars: clone_vars(&c.vars),
                },
            ),
        }
    }
}

/// What an agent is for.
#[derive(Debug, Clone, Copy, PartialEq, Eq, Structural)]
pub enum AgentRole {
    Foreman,
    Worker,
    Standalone,
}

/// The name of a role.
pub open spec fn role_name(role: AgentRole) -> Seq<char> {
    match role {
        AgentRole::Foreman => constants::AGENT_ROLE_FOREMAN@,
        AgentRole::Worker => constants::AGENT_ROLE_WORKER@,
        AgentRole::Standalone => constants::AGENT_ROLE_STANDALONE@,
    }
}

impl AgentRole {
    /// The name of the role.
    pub fn as_str(&self) -> (r: &'static str)
        ensures
            r@ == role_name(*self),
    {
        match self {
            AgentRole::Foreman => constants::AGENT_ROLE_FOREMAN,
            AgentRole::Worker => constants::AGENT_ROLE_WORKER,
            AgentRole::Standalone => constants::AGENT_ROLE_STANDALONE,
        }
    }
}

/// What a worker has used up.
#[derive(Debug)]
pub struct WorkerBudgetState {
    pub prompt_tokens: u64,
    pub output_tokens: u64,
    pub cached_tokens: u64,
    pub estimated_cost_usd: JsonNumber,
    pub elapsed_ms: u64,
    pub started_at_ms: u64,
    pub exceeded: bool,
    pub exceeded_reason: Option<String>,
    pub paused_reason: Option<String>,
}

/// What a budget stands for.
pub struct BudgetView {
    pub prompt_tokens: u64,
    pub output_tokens: u64,
    pub cached_tokens: u64,
    pub estimated_cost_usd: json::NumberView,
    pub elapsed_ms: u64,
    pub started_at_ms: u64,
    pub exceeded: bool,
    pub exceeded_reason: Option<Seq<char>>,
    pub paused_reason: Option<Seq<char>>,
}

impl View for WorkerBudgetState {
    type V = BudgetView;

    open spec fn view(&self) -> BudgetView {
        BudgetView {
            prompt_tokens: self.prompt_tokens,
            output_tokens: self.output_tokens,
            cached_tokens: self.cached_tokens,
            estimated_cost_usd: self.estimated_cost_usd@,
            elapsed_ms: self.elapsed_ms,
            started_at_ms: self.started_at_ms,
            exceeded: self.exceeded,
            exceeded_reason: text::opt_text(self.exceeded_reason),
            paused_reason: text::opt_text(self.paused_reason),
        }
    }
}

impl WorkerBudgetState {
    /// A budget of which nothing is used up, from `now_ms` on.
    pub fn new(now_ms: u64) -> (r: Self)
        ensures
            r@ == fresh_budget(now_ms),
    {
        WorkerBudgetState {
            prompt_tokens: 0,
            output_tokens: 0,
            cached_tokens: 0,
            estimated_cost_usd: JsonNumber::Real(
                RealNumber { text: "0.0".to_owned(), magnitude: 0 },
            ),
            elapsed_ms: 0,
            started_at_ms: now_ms,
            exceeded: false,
            exceeded_reason: None,
            paused_reason: None,
        }
    }

    /// How many tokens are used up, held at the bound of `u64`.
    pub fn total_tokens(&self) -> (r: u64)
        ensures
            r == all_tokens(self@),
    {
        self.prompt_tokens.saturating_add(self.output_tokens).saturating_add(self.cached_tokens)
    }
}

/// A budget of which nothing is used up, from `now_ms` on.
pub open spec fn fresh_budget(now_ms: u64) -> BudgetView {
    BudgetView {
        prompt_tokens: 0,
        output_tokens: 0,
        cached_tokens: 0,
        estimated_cost_usd: json::NumberView::Real { text: "0.0"@, magnitude: 0 },
        elapsed_ms: 0,
        started_at_ms: now_ms,
        exceeded: false,
        exceeded_reason: None,
        paused_reason: None,
    }
}

/// How many tokens are used up, held at the bound of `u64`.
pub open spec fn all_tokens(b: BudgetView) -> u64 {
    if b.prompt_tokens + b.output_tokens + b.cached_tokens <= u64::MAX {
        (b.prompt_tokens + b.output_tokens + b.cached_tokens) as u64
    } else {
        u64::MAX
    }
}

/// Where a worker can take up its work again.
#[derive(Debug)]
pub struct WorkerCheckpoint {
    pub last_successful_turn_id: Option<String>,
    pub worktree_path: Option<String>,
    pub branch_name: Option<String>,
    pub validation_retries: u32,
    pub last_validation_error: Option<String>,
    pub retry_count: u32,
}

/// What a checkpoint stands for.
pub struct CheckpointView {
    pub last_successful_turn_id: Option<Seq<char>>,
    pub worktree_path: Option<Seq<char>>,
    pub branch_name: Option<Seq<char>>,
    pub validation_retries: u32,
    pub last_validation_error: Option<Seq<char>>,
    pub retry_count: u32,
}

impl View for WorkerCheckpoint {
    type V = CheckpointView;

    open spec fn view(&self) -> CheckpointView {
        CheckpointView {
            last_successful_turn_id: text::opt_text(self.last_successful_turn_id),
            worktree_path: text::opt_text(self.worktree_path),
            branch_name: text::opt_text(self.branch_name),
            validation_retries: self.validation_retries,
            last_validation_error: text::opt_text(self.last_validation_error),
            retry_count: self.retry_count,
        }
    }
}

/// A checkpoint before any work.
pub open spec fn no_checkpoint() -> CheckpointView {
    CheckpointView {
        last_successful_turn_id: None,
        worktree_path: None,
        branch_name: None,
        validation_retries: 0,
        last_validation_error: None,
        retry_count: 0,
    }
}

impl Default for WorkerCheckpoint {
    fn default() -> (r: Self)
        ensures
            r@ == no_checkpoint(),
    {
        WorkerCheckpoint {
            last_successful_turn_id: None,
            worktree_path: None,
            branch_name: None,
            validation_retries: 0,
            last_validation_error: None,
            retry_count: 0,
        }
    }
}

/// What the service knows of an agent.
#[derive(Debug)]
pub struct AgentRecord {
    pub id: u128,
    pub thread_id: String,
    pub active_turn_id: Option<String>,
    pub prompt: Option<String>,
    pub cwd: Option<String>,
    pub restart_attempts: u32,
    pub turns_completed: u32,
    pub validation_retries: u32,
    pub last_validation_error: Option<String>,
    pub worktree_path: Option<String>,
    pub branch_name: Option<String>,
    pub model: Option<String>,
    pub model_provider: Option<String>,
    pub governor_key: Option<String>,
    pub governor_inflight: bool,
    pub throttled: bool,
    pub retry_at_ms: Option<u64>,
    pub throttle_reason: Option<String>,
    pub failure_report: Option<FailureReport>,
    pub budget: WorkerBudgetState,
    pub checkpoint: WorkerCheckpoint,
    pub status: String,
    pub callback: WorkerCallback,
    pub role: AgentRole,
    pub project_id: Option<u128>,
    pub foreman_id: Option<u128>,
    pub error: Option<String>,
    pub result: Option<AgentResult>,
    pub job_id: Option<u128>,
    pub created_at: u64,
    pub updated_at: u64,
    pub events: Vec<AgentEventDto>,
}

/// What an agent's record stands for.
pub struct AgentView {
    pub id: u128,
    pub thread_id: Seq<char>,
    pub active_turn_id: Option<Seq<char>>,
    pub prompt: Option<Seq<char>>,
    pub cwd: Option<Seq<char>>,
    pub restart_attempts: u32,
    pub turns_completed: u32,
    pub validation_retries: u32,
    pub last_validation_error: Option<Seq<char>>,
    pub worktree_path: Option<Seq<char>>,
    pub branch_name: Option<Seq<char>>,
    pub model: Option<Seq<char>>,
    pub model_provider: Option<Seq<char>>,
    pub governor_key: Option<Seq<char>>,
    pub governor_inflight: bool,
    pub throttled: bool,
    pub retry_at_ms: Option<u64>,
    pub throttle_reason: Option<Seq<char>>,
    pub failure_report: Option<models::FailureView>,
    pub budget: BudgetView,
    pub checkpoint: CheckpointView,
    pub status: Seq<char>,
    pub callback: CallbackView,
    pub role: AgentRole,
    pub project_id: Option<u128>,
    pub foreman_id: Option<u128>,
    pub error: Option<Seq<char>>,
    pub result: Option<models::ResultView>,
    pub job_id: Option<u128>,
    pub created_at: u64,
    pub updated_at: u64,
    pub events: Seq<models::EventView>,
}

impl View for AgentRecord {
    type V = AgentView;

    open spec fn view(&self) -> AgentView {
        AgentView {
            id: self.id,
            thread_id: self.thread_id@,
            active_turn_id: text::opt_text(self.active_turn_id),
            prompt: text::opt_text(self.prompt),
            cwd: text::opt_text(self.cwd),
            restart_attempts: self.restart_attempts,
            turns_completed: self.turns_completed,
            validation_retries: self.validation_retries,
            last_validation_error: text::opt_text(self.last_validation_error),
            worktree_path: text::opt_text(self.worktree_path),
            branch_name: text::opt_text(self.branch_name),
            model: text::opt_text(self.model),
            model_provider: text::opt_text(self.model_provider),
            governor_key: text::opt_text(self.governor_key),
            governor_inflight: self.governor_inflight,
            throttled: self.throttled,
            retry_at_ms: self.retry_at_ms,
            throttle_reason: text::opt_text(self.throttle_reason),
            failure_report: models::opt_failure(self.failure_report),
            budget: self.budget@,
            checkpoint: self.checkpoint@,
            status: self.status@,
            callback: self.callback@,
            role: self.role,
            project_id: self.project_id,
            foreman_id: self.foreman_id,
            error: text::opt_text(self.error),
            result: models::opt_result(self.result),
            job_id: self.job_id,
            created_at: self.created_at,
            updated_at: self.updated_at,
            events: models::event_views(self.events@),
        }
    }
}

/// A record holds no more events than its buffer takes.
pub open spec fn buffer_ok(a: AgentView) -> bool {
    a.events.len() <= constants::EVENT_BUFFER_MAX
}

/// The name of the profile of a callback, where it has one.
pub open spec fn profile_of(c: CallbackView) -> Option<Seq<char>> {
    match c {
        CallbackView::Profile { profile, .. } => Some(profile),
        _ => None,
    }
}

/// The name of the profile of a callback, where it has one.
pub fn agent_callback_profile(callback: &WorkerCallback) -> (r: Option<String>)
    ensures
        text::opt_text(r) == profile_of(callback@),
{
    match callback {
        WorkerCallback::Profile(c) => Some(c.profile.clone()),
        _ => None,
    }
}

/// The status of an agent: that of its result once the work has ended, else its own.
pub open spec fn effective_status(a: AgentView) -> Seq<char> {
    match a.result {
        Some(r) => if r.completion_method is Some || r.completed_at is Some {
            r.status
        } else {
            a.status
        },
        None => a.status,
    }
}

/// The status of an agent.
pub fn resolve_agent_status(agent: &AgentRecord) -> (r: String)
    ensures
        r@ == effective_status(agent@),
{
    if let Some(result) = &agent.result {
        if result.completion_method.is_some() || result.completed_at.is_some() {
            return result.status.clone();
        }
    }
    agent.status.clone()
}

/// An agent shows the status of its result once that is final, and else its own.
pub proof fn law_final_results_give_the_status(a: AgentView)
    ensures
        a.result is None ==> effective_status(a) == a.status,
        a.result is Some && (a.result->0.completed_at is Some || a.result->0.completion_method is Some)
            ==> effective_status(a) == a.result->0.status,
        a.result is Some && a.result->0.completed_at is None && a.result->0.completion_method is None
            ==> effective_status(a) == a.status,
        role_name(AgentRole::Foreman) == "foreman"@,
        role_name(AgentRole::Worker) == "worker"@,
        role_name(AgentRole::Standalone) == "standalone"@,
{
}

} // verus!

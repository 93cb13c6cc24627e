//! What the service takes and gives: requests, responses and the states of agents and jobs.
use vstd::prelude::*;

use crate::id_map::IdMap;
use crate::json;
use crate::json::{Json, JsonNumber};
use crate::text;
use crate::text_map::TextMap;

verus! {

/// The worktree in which a worker works.
#[derive(Debug, Clone)]
pub struct WorkerWorktreeSpec {
    pub path: String,
    pub create: bool,
    pub base_ref: Option<String>,
}

/// Asks for an agent that belongs to no project.
#[derive(Debug, Clone)]
pub struct SpawnAgentRequest {
    pub prompt: String,
    pub model: Option<String>,
    pub model_provider: Option<String>,
    pub cwd: Option<String>,
    pub sandbox: Option<String>,
    pub callback_profile: Option<String>,
    pub callback_prompt_prefix: Option<String>,
    pub callback_args: Option<Vec<String>>,
    pub callback_vars: Option<TextMap<String>>,
    pub callback_events: Option<Vec<String>>,
}

/// Asks for a turn of an agent, for another callback, or for both.
#[derive(Debug, Clone)]
pub struct SendAgentInput {
    pub prompt: Option<String>,
    pub callback_profile: Option<String>,
    pub callback_prompt_prefix: Option<String>,
    pub callback_args: Option<Vec<String>>,
    pub callback_vars: Option<TextMap<String>>,
    pub callback_events: Option<Vec<String>>,
}

/// Tells the running turn something.
#[derive(Debug, Clone)]
pub struct SteerAgentInput {
    pub prompt: String,
}

/// Stops a turn.
#[derive(Debug, Clone)]
pub struct InterruptInput {
    pub turn_id: Option<String>,
}

/// A callback in place of the configured one.
#[derive(Debug, Clone)]
pub struct CallbackOverrides {
    pub callback_profile: Option<String>,
    pub callback_prompt_prefix: Option<String>,
    pub callback_args: Option<Vec<String>>,
    pub callback_vars: Option<TextMap<String>>,
    pub callback_events: Option<Vec<String>>,
}

impl Default for CallbackOverrides {
    fn default() -> (r: Self)
        ensures
            r.callback_profile is None,
            r.callback_prompt_prefix is None,
            r.callback_args is None,
            r.callback_vars is None,
            r.callback_events is None,
    {
        CallbackOverrides {
            callback_profile: None,
            callback_prompt_prefix: None,
            callback_args: None,
            callback_vars: None,
            callback_events: None,
        }
    }
}

/// Asks for a project and its foreman.
#[derive(Debug, Clone)]
pub struct SpawnProjectRequest {
    pub path: String,
    pub start_prompt: Option<String>,
    pub model: Option<String>,
    pub model_provider: Option<String>,
    pub cwd: Option<String>,
    pub sandbox: Option<String>,
    pub callback_overrides: CallbackOverrides,
}

/// Asks for a worker in a project.
#[derive(Debug, Clone)]
pub struct SpawnProjectWorkerRequest {
    pub prompt: String,
    pub callback_overrides: CallbackOverrides,
    pub model: Option<String>,
    pub model_provider: Option<String>,
    pub cwd: Option<String>,
    pub worktree: Option<WorkerWorktreeSpec>,
    pub sandbox: Option<String>,
}

/// One worker of a job.
#[derive(Debug, Clone)]
pub struct ProjectJobWorkerSpec {
    pub name: Option<String>,
    pub prompt: String,
    pub labels: TextMap<String>,
    pub callback_overrides: CallbackOverrides,
    pub model: Option<String>,
    pub model_provider: Option<String>,
    pub cwd: Option<String>,
    pub worktree: Option<WorkerWorktreeSpec>,
    pub sandbox: Option<String>,
    pub depends_on: Vec<String>,
    pub scope_paths: Vec<String>,
}

/// Asks for a job.
#[derive(Debug, Clone)]
pub struct CreateProjectJobsRequest {
    pub workers: Vec<ProjectJobWorkerSpec>,
    pub approve_overlap: bool,
}

/// Says which job was made.
#[derive(Debug, Clone)]
pub struct CreateProjectJobsResponse {
    pub job_id: u128,
    pub project_id: u128,
    pub status: String,
    pub worker_ids: Vec<u128>,
    pub worker_count: usize,
    pub labels: TextMap<Vec<String>>,
}

/// Asks how the workers of a job would get in each other's way.
#[derive(Debug, Clone)]
pub struct PlanProjectJobsRequest {
    pub workers: Vec<ProjectJobWorkerSpec>,
    pub declared_scope_paths: TextMap<Vec<String>>,
}

/// Says how the workers of a job would get in each other's way.
#[derive(Debug, Clone)]
pub struct PlanProjectJobsResponse {
    pub project_id: u128,
    pub overlap_policy: String,
    pub blocked: bool,
    pub requires_approval: bool,
    pub high_risk_pairs: usize,
    pub matrix: Vec<OverlapRiskEntry>,
}

/// How much two workers get in each other's way.
#[derive(Debug, Clone)]
pub struct OverlapRiskEntry {
    pub worker_a: String,
    pub worker_b: String,
    pub risk: String,
    pub score: u8,
    pub reasons: Vec<String>,
}

/// Asks for a handoff of a project.
#[derive(Debug, Clone)]
pub struct CompactProjectRequest {
    pub prompt: Option<String>,
    pub reason: Option<String>,
}

/// Asks for another try of an agent.
#[derive(Debug, Clone)]
pub struct RetryAgentRequest {
    pub mode: String,
}

/// Says how an agent tries again.
#[derive(Debug, Clone)]
pub struct RetryAgentResponse {
    pub agent_id: u128,
    pub selected_mode: String,
    pub restarted_turn_id: Option<String>,
    pub checkpoint_available: bool,
}

/// An event of an agent.
#[derive(Debug)]
pub struct AgentEventDto {
    pub ts: u64,
    pub method: String,
    pub params: Json,
}

/// What an event says.
pub struct EventView {
    pub ts: u64,
    pub method: Seq<char>,
    pub params: json::JsonView,
}

impl View for AgentEventDto {
    type V = EventView;

    open spec fn view(&self) -> EventView {
        EventView { ts: self.ts, method: self.method@, params: self.params@ }
    }
}

impl Clone for AgentEventDto {
    fn clone(&self) -> (r: Self)
        ensures
            r@ == self@,
    {
        AgentEventDto { ts: self.ts, method: self.method.clone(), params: self.params.clone() }
    }
}

/// What the events say.
pub open spec fn event_views(events: Seq<AgentEventDto>) -> Seq<EventView> {
    events.map_values(|e: AgentEventDto| e@)
}

/// Copies of the events.
pub fn clone_events(events: &Vec<AgentEventDto>) -> (r: Vec<AgentEventDto>)
    ensures
        event_views(r@) == event_views(events@),
{
    let mut r: Vec<AgentEventDto> = Vec::new();
    let mut i: usize = 0;
    while i < events.len()
        invariant
            i <= events@.len(),
            r@.len() == i,
            forall|j: int| 0 <= j < i ==> (#[trigger] r@[j])@ == events@[j]@,
        decreases events@.len() - i,
    {
        r.push(events[i].clone());
        i += 1;
    }
    assert(event_views(r@) == event_views(events@));
    r
}

/// An event of an agent, as an event of its job.
#[derive(Debug, Clone)]
pub struct JobEventEnvelope {
    pub job_id: u128,
    pub agent_id: u128,
    pub ts: u64,
    pub method: String,
    pub params: Json,
}

/// A tool that an agent used.
#[derive(Debug, Clone)]
pub struct ToolCallSummary {
    pub tool: String,
    pub command: Option<String>,
    pub path: Option<String>,
    pub at: u64,
}

/// What an agent's work came to.
#[derive(Debug)]
pub struct AgentResult {
    pub agent_id: u128,
    pub status: String,
    pub completion_method: Option<String>,
    pub turn_id: Option<String>,
    pub final_text: Option<String>,
    pub summary: Option<String>,
    pub references: Option<Vec<String>>,
    pub completed_at: Option<u64>,
    pub event_id: Option<u128>,
    pub error: Option<String>,
}

/// What a result says.
pub struct ResultView {
    pub agent_id: u128,
    pub status: Seq<char>,
    pub completion_method: Option<Seq<char>>,
    pub turn_id: Option<Seq<char>>,
    pub final_text: Option<Seq<char>>,
    pub summary: Option<Seq<char>>,
    pub references: Option<Seq<Seq<char>>>,
    pub completed_at: Option<u64>,
    pub event_id: Option<u128>,
    pub error: Option<Seq<char>>,
}

impl View for AgentResult {
    type V = ResultView;

    open spec fn view(&self) -> ResultView {
        ResultView {
            agent_id: self.agent_id,
            status: self.status@,
            completion_method: text::opt_text(self.completion_method),
            turn_id: text::opt_text(self.turn_id),
            final_text: text::opt_text(self.final_text),
            summary: text::opt_text(self.summary),
            references: text::opt_texts(self.references),
            completed_at: self.completed_at,
            event_id: self.event_id,
            error: text::opt_text(self.error),
        }
    }
}

/// What an optional result says.
pub open spec fn opt_result(r: Option<AgentResult>) -> Option<ResultView> {
    match r {
        Some(r) => Some(r@),
        None => None,
    }
}

/// A copy of a list of texts.
pub fn clone_texts(v: &Vec<String>) -> (r: Vec<String>)
    ensures
        r@ == v@,
{
    let r = v.clone();
    assert(r@ == v@);
    r
}

/// A copy of an optional list of texts.
pub fn clone_opt_texts(v: &Option<Vec<String>>) -> (r: Option<Vec<String>>)
    ensures
        text::opt_texts(r) == text::opt_texts(*v),
        r is Some == v is Some,
        r matches Some(x) ==> x@ == v->0@,
{
    match v {
        Some(v) => Some(clone_texts(v)),
        None => None,
    }
}

/// A copy of a map of texts.
pub fn clone_vars(vars: &TextMap<String>) -> (r: TextMap<String>)
    ensures
        r.items() == vars.items(),
        r@ == vars@,
{
    let r = vars.clone();
    assert(r.items() == vars.items());
    r
}

/// A copy of an optional map of texts.
pub fn clone_opt_vars(vars: &Option<TextMap<String>>) -> (r: Option<TextMap<String>>)
    ensures
        r is Some == vars is Some,
        r matches Some(x) ==> x.items() == vars->0.items() && x@ == vars->0@,
{
    match vars {
        Some(vars) => Some(clone_vars(vars)),
        None => None,
    }
}

/// A copy of a list of identifiers.
pub fn clone_ids(v: &Vec<u128>) -> (r: Vec<u128>)
    ensures
        r@ == v@,
{
    let r = v.clone();
    assert(r@ == v@);
    r
}

impl Clone for AgentResult {
    fn clone(&self) -> (r: Self)
        ensures
            r@ == self@,
    {
        AgentResult {
            agent_id: self.agent_id,
            status: self.status.clone(),
            completion_method: self.completion_method.clone(),
            turn_id: self.turn_id.clone(),
            final_text: self.final_text.clone(),
            summary: self.summary.clone(),
            references: clone_opt_texts(&self.references),
            completed_at: self.completed_at,
            event_id: self.event_id,
            error: self.error.clone(),
        }
    }
}

/// Why a worker failed.
#[derive(Debug, Clone, Copy, PartialEq, Eq, Structural)]
pub enum FailureClass {
    RateLimit,
    ValidationFailed,
    MergeConflict,
    Timeout,
    ToolError,
    CallbackError,
    Unknown,
}

/// How a worker failed, and since when.
#[derive(Debug)]
pub struct FailureReport {
    pub class: FailureClass,
    pub summary: String,
    pub details: Option<String>,
    pub first_seen: u64,
    pub last_seen: u64,
    pub retryable: bool,
}

/// What a failure report says.
pub struct FailureView {
    pub class: FailureClass,
    pub summary: Seq<char>,
    pub details: Option<Seq<char>>,
    pub first_seen: u64,
    pub last_seen: u64,
    pub retryable: bool,
}

impl View for FailureReport {
    type V = FailureView;

    open spec fn view(&self) -> FailureView {
        FailureView {
            class: self.class,
            summary: self.summary@,
            details: text::opt_text(self.details),
            first_seen: self.first_seen,
            last_seen: self.last_seen,
            retryable: self.retryable,
        }
    }
}

/// What an optional failure report says.
pub open spec fn opt_failure(r: Option<FailureReport>) -> Option<FailureView> {
    match r {
        Some(r) => Some(r@),
        None => None,
    }
}

impl Clone for FailureReport {
    fn clone(&self) -> (r: Self)
        ensures
            r == *self,
    {
        FailureReport {
            class: self.class,
            summary: self.summary.clone(),
            details: self.details.clone(),
            first_seen: self.first_seen,
            last_seen: self.last_seen,
            retryable: self.retryable,
        }
    }
}

/// The same report.
pub fn clone_opt_failure(r: &Option<FailureReport>) -> (c: Option<FailureReport>)
    ensures
        c == *r,
{
    match r {
        Some(r) => Some(r.clone()),
        None => None,
    }
}

/// What a worker has used up.
#[derive(Debug, Clone)]
pub struct WorkerBudgetUsage {
    pub prompt_tokens: u64,
    pub output_tokens: u64,
    pub cached_tokens: u64,
    pub estimated_cost_usd: JsonNumber,
    pub elapsed_ms: u64,
}

/// What a worker may use up.
#[derive(Debug, Clone)]
pub struct WorkerBudgetLimits {
    pub max_tokens: u64,
    pub max_duration_ms: u64,
    pub on_exceed: String,
}

/// What a worker has used up of what it may.
#[derive(Debug, Clone)]
pub struct WorkerBudgetStatus {
    pub usage: WorkerBudgetUsage,
    pub limits: WorkerBudgetLimits,
    pub exceeded: bool,
    pub exceeded_reason: Option<String>,
}

/// The state of an agent.
#[derive(Debug, Clone)]
pub struct AgentState {
    pub id: u128,
    pub thread_id: String,
    pub active_turn_id: Option<String>,
    pub status: String,
    pub callback_profile: Option<String>,
    pub role: String,
    pub project_id: Option<u128>,
    pub foreman_id: Option<u128>,
    pub error: Option<String>,
    pub updated_at: u64,
    pub events: Vec<AgentEventDto>,
    pub turns_completed: u32,
    pub validation_retries: u32,
    pub last_validation_error: Option<String>,
    pub worktree_path: Option<String>,
    pub branch: Option<String>,
    pub last_tool_call: Option<ToolCallSummary>,
    pub files_modified: Vec<String>,
    pub elapsed_ms: Option<u64>,
    pub throttled: bool,
    pub retry_at_ms: Option<u64>,
    pub throttle_reason: Option<String>,
    pub failure_report: Option<FailureReport>,
    pub budget: Option<WorkerBudgetStatus>,
}

/// What an agent's work came to, with how it fared.
#[derive(Debug, Clone)]
pub struct AgentResultResponse {
    pub agent_id: u128,
    pub status: String,
    pub completion_method: Option<String>,
    pub turn_id: Option<String>,
    pub final_text: Option<String>,
    pub summary: Option<String>,
    pub references: Option<Vec<String>>,
    pub completed_at: Option<u64>,
    pub event_id: Option<u128>,
    pub error: Option<String>,
    pub event_count: usize,
    pub throttled: bool,
    pub retry_at_ms: Option<u64>,
    pub throttle_reason: Option<String>,
    pub failure_report: Option<FailureReport>,
    pub budget: Option<WorkerBudgetStatus>,
}

/// What an agent's work came to within a time.
#[derive(Debug, Clone)]
pub struct AgentWaitResponse {
    pub result: AgentResultResponse,
    pub timed_out: bool,
    pub events: Option<Vec<AgentEventDto>>,
}

/// What a job came to within a time.
#[derive(Debug, Clone)]
pub struct JobWaitResponse {
    pub result: JobResult,
    pub timed_out: bool,
}

/// Says which agent was made, or which turn was started.
#[derive(Debug, Clone)]
pub struct SpawnAgentResponse {
    pub id: u128,
    pub thread_id: String,
    pub turn_id: Option<String>,
    pub status: String,
    pub project_id: Option<u128>,
    pub role: String,
    pub foreman_id: Option<u128>,
}

/// Says which project was made.
#[derive(Debug, Clone)]
pub struct CreateProjectResponse {
    pub project_id: u128,
    pub path: String,
    pub foreman_agent_id: Option<u128>,
    pub status: String,
}

/// Says which project was read again.
#[derive(Debug, Clone)]
pub struct ReloadProjectResponse {
    pub reloaded: bool,
    pub project_id: u128,
}

/// The state of a project.
#[derive(Debug, Clone)]
pub struct ProjectState {
    pub id: u128,
    pub path: String,
    pub name: String,
    pub status: String,
    pub foreman_agent_id: Option<u128>,
    pub worker_ids: Vec<u128>,
    pub worker_count: usize,
    pub created_at: u64,
    pub updated_at: u64,
}

/// What came of a project's callbacks.
#[derive(Debug, Clone)]
pub struct ProjectCallbackStatusResponse {
    pub project_id: u128,
    pub callbacks: TextMap<String>,
}

/// A worker that has to wait.
#[derive(Debug, Clone)]
pub struct ThrottledWorkerStatus {
    pub agent_id: u128,
    pub retry_at_ms: Option<u64>,
    pub reason: Option<String>,
}

/// The state of a job.
#[derive(Debug, Clone)]
pub struct JobState {
    pub id: u128,
    pub project_id: Option<u128>,
    pub status: String,
    pub worker_ids: Vec<u128>,
    pub labels: TextMap<Vec<String>>,
    pub created_at: u64,
    pub completed_at: Option<u64>,
    pub updated_at: u64,
    pub throttled_workers: Vec<ThrottledWorkerStatus>,
    pub dependency_graph: IdMap<Vec<u128>>,
    pub blocked_reasons: IdMap<String>,
}

/// What a job came to.
#[derive(Debug, Clone)]
pub struct JobResult {
    pub id: u128,
    pub project_id: Option<u128>,
    pub status: String,
    pub total_workers: usize,
    pub completed_workers: usize,
    pub running_workers: usize,
    pub failed_workers: usize,
    pub worker_count: usize,
    pub workers: Vec<AgentResultResponse>,
    pub labels: TextMap<Vec<String>>,
    pub merged_branches: Vec<String>,
    pub merge_conflicts: Vec<String>,
    pub dependency_graph: IdMap<Vec<u128>>,
    pub blocked_reasons: IdMap<String>,
}

/// Says which worker was made in a project.
#[derive(Debug, Clone)]
pub struct SpawnProjectWorkerResponse {
    pub id: u128,
    pub thread_id: String,
    pub turn_id: Option<String>,
    pub status: String,
    pub project_id: u128,
    pub foreman_id: u128,
    pub role: String,
}

/// A line in the log of a worker's tools.
#[derive(Debug, Clone)]
pub struct WorkerLogEntry {
    pub turn: u32,
    pub tool: String,
    pub command: Option<String>,
    pub path: Option<String>,
    pub exit_code: Option<i32>,
    pub stderr: Option<String>,
    pub bytes: Option<usize>,
    pub at: u64,
}

/// What a tool's callback carries.
#[derive(Debug, Clone)]
pub struct ToolFilterCallbackPayload {
    pub worker_id: u128,
    pub job_id: Option<u128>,
    pub project_id: u128,
    pub filter_name: String,
    pub tool: String,
    pub command: Option<String>,
    pub exit_code: Option<i32>,
    pub output_tail: Option<String>,
}

/// How far an agent's work is checked.
#[derive(Debug, Clone)]
pub struct ProgressValidationState {
    pub retries: u32,
    pub last_error: Option<String>,
}

/// Whether an agent has to wait.
#[derive(Debug, Clone)]
pub struct ProgressThrottleState {
    pub throttled: bool,
    pub retry_at_ms: Option<u64>,
    pub reason: Option<String>,
}

/// How an agent gets on.
#[derive(Debug, Clone)]
pub struct AgentProgressEnvelope {
    pub agent_id: u128,
    pub ts: u64,
    pub event: String,
    pub status: String,
    pub turn_id: Option<String>,
    pub tool_call: Option<ToolCallSummary>,
    pub validation: Option<ProgressValidationState>,
    pub throttle: Option<ProgressThrottleState>,
    pub budget: Option<Json>,
    pub payload: Json,
}

} // verus!

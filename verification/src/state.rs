//! The state of the service as it is kept between runs.
use vstd::prelude::*;

use crate::constants;
use crate::json::JsonNumber;
use crate::models::{AgentEventDto, AgentResult, FailureReport};
use crate::project::ProjectConfig;
use crate::text_map::TextMap;

verus! {

/// The whole state.
#[derive(Debug)]
pub struct PersistedState {
    pub version: u32,
    pub generated_at: u64,
    pub agents: Vec<PersistedAgentRecord>,
    pub projects: Vec<PersistedProjectRecord>,
    pub jobs: Vec<PersistedJobRecord>,
    pub governors: TextMap<PersistedGovernorRecord>,
}

/// How the service got on with one provider and model.
#[derive(Debug, Clone, Copy, PartialEq, Eq, Structural)]
pub struct PersistedGovernorRecord {
    pub throttled_until_ms: u64,
    pub backoff_ms: u64,
    pub recent_errors: u32,
    pub inflight_count: u32,
}

/// A callback.
#[derive(Debug)]
pub enum PersistedWorkerCallback {
    Unset,
    Webhook {
        url: String,
        secret: Option<String>,
        timeout_ms: Option<u64>,
        events: Option<Vec<String>>,
        vars: TextMap<String>,
    },
    UnixSocket {
        socket: String,
        timeout_ms: Option<u64>,
        events: Option<Vec<String>>,
        vars: TextMap<String>,
    },
    Profile {
        profile: String,
        prompt_prefix: Option<String>,
        command_args: Option<Vec<String>>,
        events: Option<Vec<String>>,
        vars: TextMap<String>,
    },
}

/// What a worker has used up.
#[derive(Debug)]
pub struct PersistedWorkerBudget {
    pub prompt_tokens: u64,
    pub output_tokens: u64,
    pub cached_tokens: u64,
    pub estimated_cost_usd: JsonNumber,
    pub elapsed_ms: u64,
    pub exceeded: bool,
    pub exceeded_reason: Option<String>,
    pub paused_reason: Option<String>,
}

/// Where a worker can take up its work again.
#[derive(Debug)]
pub struct PersistedWorkerCheckpoint {
    pub last_successful_turn_id: Option<String>,
    pub worktree_path: Option<String>,
    pub branch_name: Option<String>,
    pub validation_retries: u32,
    pub last_validation_error: Option<String>,
    pub retry_count: u32,
}

/// An agent.
#[derive(Debug)]
pub struct PersistedAgentRecord {
    pub id: String,
    pub thread_id: String,
    pub active_turn_id: Option<String>,
    pub prompt: Option<String>,
    pub cwd: Option<String>,
    pub restart_attempts: u32,
    pub turns_completed: u32,
    pub validation_retries: u32,
    pub last_validation_error: Option<String>,
    pub worktree_path: Option<String>,
    pub branch_name: Option<String>,
    pub model: Option<String>,
    pub model_provider: Option<String>,
    pub governor_key: Option<String>,
    pub governor_inflight: bool,
    pub throttled: bool,
    pub retry_at_ms: Option<u64>,
    pub throttle_reason: Option<String>,
    pub failure_report: Option<FailureReport>,
    pub budget: Option<PersistedWorkerBudget>,
    pub checkpoint: Option<PersistedWorkerCheckpoint>,
    pub status: String,
    pub callback: PersistedWorkerCallback,
    pub role: String,
    pub project_id: Option<String>,
    pub foreman_id: Option<String>,
    pub error: Option<String>,
    pub result: Option<AgentResult>,
    pub job_id: Option<String>,
    pub created_at: u64,
    pub updated_at: u64,
    pub events: Vec<AgentEventDto>,
}

/// The texts of a project's files.
#[derive(Debug)]
pub struct PersistedRuntimeFiles {
    pub foreman_prompt: String,
    pub worker_prompt: String,
    pub runbook: String,
    pub handoff: Option<String>,
}

/// A project.
#[derive(Debug)]
pub struct PersistedProjectRecord {
    pub id: String,
    pub path: String,
    pub name: String,
    pub status: String,
    pub foreman_agent_id: Option<String>,
    pub worker_ids: Vec<String>,
    pub completed_worker_turns: u64,
    pub config: ProjectConfig,
    pub runtime: PersistedRuntimeFiles,
    pub lifecycle_callback_status: TextMap<String>,
    pub created_at: u64,
    pub updated_at: u64,
}

/// A job.
#[derive(Debug)]
pub struct PersistedJobRecord {
    pub id: String,
    pub project_id: Option<String>,
    pub status: String,
    pub worker_ids: Vec<String>,
    pub worker_labels: TextMap<TextMap<String>>,
    pub merged_branches: Vec<String>,
    pub merge_conflicts: Vec<String>,
    pub base_branch: Option<String>,
    pub merge_strategy: Option<String>,
    pub worker_names: TextMap<String>,
    pub dependency_graph: TextMap<Vec<String>>,
    pub blocked_reasons: TextMap<String>,
    pub created_at: u64,
    pub completed_at: Option<u64>,
    pub updated_at: u64,
}

impl PersistedState {
    /// A state in which there is nothing yet.
    pub fn empty(now: u64) -> (r: Self)
        ensures
            r.version == constants::PERSISTED_STATE_VERSION,
            r.generated_at == now,
            r.agents@.len() == 0,
            r.projects@.len() == 0,
            r.jobs@.len() == 0,
            r.governors@ == Map::<Seq<char>, PersistedGovernorRecord>::empty(),
    {
        PersistedState {
            version: constants::PERSISTED_STATE_VERSION,
            generated_at: now,
            agents: Vec::new(),
            projects: Vec::new(),
            jobs: Vec::new(),
            governors: TextMap::new(),
        }
    }

    /// The state that was kept, or an empty one where none was. One without a version is of the
    /// present one.
    pub fn load(kept: Option<PersistedState>, now: u64) -> (r: Self)
        ensures
            match kept {
                Some(s) => r == (PersistedState {
                    version: if s.version == 0 {
                        constants::PERSISTED_STATE_VERSION
                    } else {
                        s.version
                    },
                    generated_at: now,
                    ..s
                }),
                None => r.version == constants::PERSISTED_STATE_VERSION && r.generated_at == now
                    && r.agents@.len() == 0 && r.projects@.len() == 0 && r.jobs@.len() == 0
                    && r.governors@ == Map::<Seq<char>, PersistedGovernorRecord>::empty(),
            },
    {
        match kept {
            Some(s) => {
                let mut state = s;
                if state.version == 0 {
                    state.version = constants::PERSISTED_STATE_VERSION;
                }
                state.generated_at = now;
                state
            },
            None => PersistedState::empty(now),
        }
    }

    /// The state as it is kept at a time.
    pub fn save(self, now: u64) -> (r: Self)
        ensures
            r == (PersistedState { generated_at: now, ..self }),
    {
        let mut state = self;
        state.generated_at = now;
        state
    }
}

} // verus!

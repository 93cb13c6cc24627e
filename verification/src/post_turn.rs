//! What follows when a worker has completed a turn: its work is checked, and it is sent on.
use vstd::prelude::*;

use crate::agent;
use crate::agent::{AgentRecord, AgentRole};
use crate::agent_events;
use crate::agent_events::{progress_validation_state, CallbackEventContext};
use crate::constants;
use crate::error::ForemanError;
use crate::failure;
use crate::failure::update_failure_report;
use crate::governor;
use crate::json;
use crate::models;
use crate::models::{clone_texts, AgentProgressEnvelope, FailureClass};
use crate::project::{JobDefaultsConfig, ValidationConfig};
use crate::text;
use crate::text::same_text;
use crate::text_search::decimal_text;
use crate::turns;
use crate::turns::continuation_prompt_for_turn;

verus! {

/// When a worker's work is checked.
#[derive(Debug, Clone, Copy, PartialEq, Eq, Structural)]
pub enum ValidationPhase {
    OnTurn,
    OnComplete,
}

/// What comes next for a worker that has completed a turn.
#[derive(Debug, Clone)]
pub enum PostTurnStep {
    /// Nothing.
    Done,
    /// The commands are run in the directory.
    Validate { phase: ValidationPhase, commands: Vec<String>, cwd: String },
    /// It gets another turn.
    SendTurn { prompt: String },
}

/// Whether an event concerns a worker of a project that has completed a turn.
pub open spec fn is_worker_turn(c: agent_events::ContextView) -> bool {
    c.role == AgentRole::Worker && c.method == constants::EVENT_METHOD_TURN_COMPLETED@
        && c.project_id is Some
}

/// The commands of a phase.
pub open spec fn commands_of(validation: Option<ValidationConfig>, phase: ValidationPhase) -> Seq<
    Seq<char>,
> {
    match validation {
        Some(v) => match phase {
            ValidationPhase::OnTurn => text::texts(v.on_turn@),
            ValidationPhase::OnComplete => text::texts(v.on_complete@),
        },
        None => Seq::empty(),
    }
}

/// That the work of a worker cannot be checked because there is no directory to check it in.
pub open spec fn no_cwd(phase: ValidationPhase) -> Seq<char> {
    match phase {
        ValidationPhase::OnTurn => "worker has no cwd configured for validation.on_turn"@,
        ValidationPhase::OnComplete => "worker has no cwd configured for validation.on_complete"@,
    }
}

/// Whether a step is to run the commands of a phase, or says that there is no directory for it.
pub open spec fn validates(
    r: Result<PostTurnStep, ForemanError>,
    validation: Option<ValidationConfig>,
    phase: ValidationPhase,
    cwd: Option<Seq<char>>,
) -> bool {
    match cwd {
        Some(dir) => r matches Ok(PostTurnStep::Validate { phase: p, commands, cwd: d }) && p == phase
            && text::texts(commands@) == commands_of(validation, phase) && d@ == dir,
        None => r matches Err(e) && e@ == seq![no_cwd(phase)],
    }
}

/// Whether an agent waits for work.
pub open spec fn is_free(status: Seq<char>) -> bool {
    status == constants::AGENT_STATUS_IDLE@ || status == constants::AGENT_STATUS_COMPLETED@
}

/// Whether an agent waits for work.
pub fn is_agent_idle_or_completed(agent: &AgentRecord) -> (r: bool)
    ensures
        r == is_free(agent@.status),
{
    same_text(agent.status.as_str(), constants::AGENT_STATUS_IDLE) || same_text(
        agent.status.as_str(),
        constants::AGENT_STATUS_COMPLETED,
    )
}

/// Whether a step is what comes once the turn itself is checked.
pub open spec fn goes_on(
    r: Result<PostTurnStep, ForemanError>,
    validation: Option<ValidationConfig>,
    defaults: JobDefaultsConfig,
    status: Seq<char>,
    turns_completed: u32,
    cwd: Option<Seq<char>>,
) -> bool {
    if !is_free(status) {
        r matches Ok(PostTurnStep::Done)
    } else {
        match turns::continuation(turns_completed, defaults) {
            Some(p) => r matches Ok(PostTurnStep::SendTurn { prompt }) && prompt@ == p,
            None => if commands_of(validation, ValidationPhase::OnComplete).len() > 0 {
                validates(r, validation, ValidationPhase::OnComplete, cwd)
            } else {
                r matches Ok(PostTurnStep::Done)
            },
        }
    }
}

fn validate(
    validation: &Option<ValidationConfig>,
    phase: ValidationPhase,
    cwd: &Option<String>,
) -> (r: Result<PostTurnStep, ForemanError>)
    requires
        commands_of(*validation, phase).len() > 0,
    ensures
        validates(r, *validation, phase, text::opt_text(*cwd)),
{
    match cwd {
        Some(dir) => {
            let commands = match validation {
                Some(v) => match phase {
                    ValidationPhase::OnTurn => clone_texts(&v.on_turn),
                    ValidationPhase::OnComplete => clone_texts(&v.on_complete),
                },
                None => Vec::new(),
            };
            Ok(PostTurnStep::Validate { phase, commands, cwd: dir.clone() })
        },
        None => match phase {
            ValidationPhase::OnTurn => Err(
                ForemanError::from_text("worker has no cwd configured for validation.on_turn"),
            ),
            ValidationPhase::OnComplete => Err(
                ForemanError::from_text("worker has no cwd configured for validation.on_complete"),
            ),
        },
    }
}

fn has_commands(validation: &Option<ValidationConfig>, phase: ValidationPhase) -> (r: bool)
    ensures
        r == (commands_of(*validation, phase).len() > 0),
{
    match validation {
        Some(v) => match phase {
            ValidationPhase::OnTurn => v.on_turn.len() > 0,
            ValidationPhase::OnComplete => v.on_complete.len() > 0,
        },
        None => false,
    }
}

/// What comes once the turn itself is checked: the worker is sent on until it has taken as many
/// turns as it has to, and its work is checked as a whole.
pub fn after_turn_check(
    validation: &Option<ValidationConfig>,
    defaults: &JobDefaultsConfig,
    agent: &AgentRecord,
    turns_completed: u32,
    cwd: &Option<String>,
) -> (r: Result<PostTurnStep, ForemanError>)
    ensures
        goes_on(
            r,
            *validation,
            *defaults,
            agent@.status,
            turns_completed,
            text::opt_text(*cwd),
        ),
{
    if !is_agent_idle_or_completed(agent) {
        return Ok(PostTurnStep::Done);
    }
    if let Some(prompt) = continuation_prompt_for_turn(turns_completed, defaults) {
        return Ok(PostTurnStep::SendTurn { prompt });
    }
    if has_commands(validation, ValidationPhase::OnComplete) {
        return validate(validation, ValidationPhase::OnComplete, cwd);
    }
    Ok(PostTurnStep::Done)
}

/// What comes first for a worker that has completed a turn.
pub fn handle_worker_post_turn(
    context: &CallbackEventContext,
    validation: &Option<ValidationConfig>,
    defaults: &JobDefaultsConfig,
    agent: &AgentRecord,
) -> (r: Result<PostTurnStep, ForemanError>)
    ensures
        if !is_worker_turn(context@) {
            r matches Ok(PostTurnStep::Done)
        } else if commands_of(*validation, ValidationPhase::OnTurn).len() > 0 {
            validates(r, *validation, ValidationPhase::OnTurn, agent@.cwd)
        } else {
            goes_on(
                r,
                *validation,
                *defaults,
                agent@.status,
                agent@.turns_completed,
                agent@.cwd,
            )
        },
{
    if context.role != AgentRole::Worker || !same_text(
        context.method.as_str(),
        constants::EVENT_METHOD_TURN_COMPLETED,
    ) || context.project_id.is_none() {
        return Ok(PostTurnStep::Done);
    }
    if has_commands(validation, ValidationPhase::OnTurn) {
        return validate(validation, ValidationPhase::OnTurn, &agent.cwd);
    }
    after_turn_check(validation, defaults, agent, agent.turns_completed, &agent.cwd)
}

/// A worker whose work was found good.
pub open spec fn after_success(a: agent::AgentView, ts: u64) -> agent::AgentView {
    agent::AgentView {
        last_validation_error: None,
        checkpoint: agent::CheckpointView {
            last_validation_error: None,
            validation_retries: a.validation_retries,
            ..a.checkpoint
        },
        updated_at: ts,
        ..a
    }
}

/// Takes note that a worker's work was found good. Gives what is told of it.
pub fn clear_validation_error(agent: &mut AgentRecord, ts: u64) -> (r: AgentProgressEnvelope)
    ensures
        final(agent)@ == after_success(old(agent)@, ts),
        r@ == agent_events::state_progress(final(agent)@, "validation/ok"@, ts, true),
{
    agent.last_validation_error = None;
    agent.checkpoint.last_validation_error = None;
    agent.checkpoint.validation_retries = agent.validation_retries;
    agent.updated_at = ts;
    progress_validation_state(agent, "validation/ok", ts)
}

/// A worktree that is removed when a worker is given up.
#[derive(Debug, Clone)]
pub struct AbandonedWorktree {
    pub worktree_path: String,
    pub branch_name: Option<String>,
    pub project_id: u128,
}

/// What is done about work that was found bad.
#[derive(Debug, Clone)]
pub enum ValidationStep {
    /// Nothing: the worker goes on.
    Continue,
    /// The worker is told to mend it.
    Retry { prompt: String },
    /// The worker has failed.
    GiveUp { cleanup: Option<AbandonedWorktree> },
}

/// A worker whose work was found bad.
pub open spec fn noted(a: agent::AgentView, error: Seq<char>, ts: u64) -> agent::AgentView {
    agent::AgentView {
        last_validation_error: Some(error),
        checkpoint: agent::CheckpointView {
            last_validation_error: Some(error),
            validation_retries: a.validation_retries,
            ..a.checkpoint
        },
        updated_at: ts,
        ..a
    }
}

/// Whether bad work is let pass.
pub open spec fn lets_pass(v: ValidationConfig) -> bool {
    v.fail_action@ == "warn"@
}

/// Whether the worker is to mend bad work.
pub open spec fn may_mend(v: ValidationConfig, retries: u32) -> bool {
    v.fail_action@ == "retry"@ && retries < v.max_retries
}

/// What a worker is told that is to mend its work.
pub open spec fn mend_prompt(error: Seq<char>) -> Seq<char> {
    "Validation failed: "@ + error + "\nFix and commit."@
}

/// Why a worker is given up.
pub open spec fn give_up_message(v: ValidationConfig, retries: u32, error: Seq<char>) -> Seq<char> {
    if v.fail_action@ == "retry"@ {
        error + " (retry budget exhausted: "@ + text::decimal(retries as nat) + "/"@
            + text::decimal(v.max_retries as nat) + " retries)"@
    } else {
        error
    }
}

/// A worker that is given up for its work.
pub open spec fn given_up(a: agent::AgentView, message: Seq<char>, ts: u64) -> agent::AgentView {
    agent::AgentView {
        worktree_path: None,
        status: constants::AGENT_STATUS_FAILED@,
        error: Some(message),
        failure_report: Some(
            failure::next_report(
                a.failure_report,
                FailureClass::ValidationFailed,
                "validation failed"@,
                Some(message),
                false,
                ts,
            ),
        ),
        result: match a.result {
            Some(r) => Some(
                models::ResultView {
                    status: constants::AGENT_STATUS_FAILED@,
                    error: Some(message),
                    turn_id: json::either(r.turn_id, a.active_turn_id),
                    ..r
                },
            ),
            None => None,
        },
        updated_at: ts,
        ..a
    }
}

/// A worker after its work was found bad.
pub open spec fn after_bad_work(
    a: agent::AgentView,
    v: ValidationConfig,
    error: Seq<char>,
    ts: u64,
) -> agent::AgentView {
    let b = noted(a, error, ts);
    if lets_pass(v) || may_mend(v, a.validation_retries) {
        b
    } else {
        given_up(b, give_up_message(v, a.validation_retries, error), ts)
    }
}

/// Takes note of bad work. Gives what is told of it and what is done about it.
pub fn handle_validation_failure(
    agent: &mut AgentRecord,
    validation: &ValidationConfig,
    error_text: String,
    ts: u64,
) -> (r: (AgentProgressEnvelope, ValidationStep))
    ensures
        final(agent)@ == after_bad_work(old(agent)@, *validation, error_text@, ts),
        r.0@ == agent_events::state_progress(
            noted(old(agent)@, error_text@, ts),
            "validation/failed"@,
            ts,
            true,
        ),
        match r.1 {
            ValidationStep::Continue => lets_pass(*validation),
            ValidationStep::Retry { prompt } => {
                &&& !lets_pass(*validation)
                &&& may_mend(*validation, old(agent)@.validation_retries)
                &&& prompt@ == mend_prompt(error_text@)
            },
            ValidationStep::GiveUp { cleanup } => {
                &&& !lets_pass(*validation)
                &&& !may_mend(*validation, old(agent)@.validation_retries)
                &&& cleanup is Some == (old(agent)@.worktree_path is Some && old(
                    agent,
                )@.project_id is Some)
                &&& cleanup matches Some(c) ==> Some(c.worktree_path@) == old(agent)@.worktree_path
                    && text::opt_text(c.branch_name) == old(agent)@.branch_name && Some(
                    c.project_id,
                ) == old(agent)@.project_id
            },
        },
{
    agent.last_validation_error = Some(error_text.clone());
    agent.checkpoint.last_validation_error = Some(error_text.clone());
    agent.checkpoint.validation_retries = agent.validation_retries;
    agent.updated_at = ts;
    let progress = progress_validation_state(agent, "validation/failed", ts);
    if same_text(validation.fail_action.as_str(), "warn") {
        return (progress, ValidationStep::Continue);
    }
    let retries: u32 = agent.validation_retries;
    let retrying = same_text(validation.fail_action.as_str(), "retry");
    if retrying && retries < validation.max_retries {
        let mut prompt = "Validation failed: ".to_owned();
        prompt.append(error_text.as_str());
        prompt.append("\nFix and commit.");
        return (progress, ValidationStep::Retry { prompt });
    }
    let mut message = error_text;
    if retrying {
        message.append(" (retry budget exhausted: ");
        message.append(decimal_text(retries as u128).as_str());
        message.append("/");
        message.append(decimal_text(validation.max_retries as u128).as_str());
        message.append(" retries)");
    }
    let cleanup = give_up(agent, message, ts);
    (progress, ValidationStep::GiveUp { cleanup })
}

/// Gives a worker up for its work. Says which worktree is to be removed.
fn give_up(agent: &mut AgentRecord, message: String, ts: u64) -> (r: Option<AbandonedWorktree>)
    ensures
        final(agent)@ == given_up(old(agent)@, message@, ts),
        r is Some == (old(agent)@.worktree_path is Some && old(agent)@.project_id is Some),
        r matches Some(c) ==> Some(c.worktree_path@) == old(agent)@.worktree_path && text::opt_text(
            c.branch_name,
        ) == old(agent)@.branch_name && Some(c.project_id) == old(agent)@.project_id,
{
    let worktree = agent.worktree_path.take();
    let cleanup = match (worktree, agent.project_id) {
        (Some(worktree_path), Some(project_id)) => Some(
            AbandonedWorktree { worktree_path, branch_name: agent.branch_name.clone(), project_id },
        ),
        _ => None,
    };
    agent.status = constants::AGENT_STATUS_FAILED.to_owned();
    agent.error = Some(message.clone());
    update_failure_report(
        &mut agent.failure_report,
        FailureClass::ValidationFailed,
        "validation failed".to_owned(),
        Some(message.clone()),
        false,
        ts,
    );
    let known = agent.result.take();
    agent.result =
    match known {
        Some(mut result) => {
            result.status = constants::AGENT_STATUS_FAILED.to_owned();
            result.error = Some(message);
            if result.turn_id.is_none() {
                result.turn_id = agent.active_turn_id.clone();
            }
            Some(result)
        },
        None => None,
    };
    agent.updated_at = ts;
    cleanup
}

/// A worker that was told to mend its work.
pub open spec fn after_mend(a: agent::AgentView, ts: u64) -> agent::AgentView {
    agent::AgentView {
        validation_retries: governor::one_more(a.validation_retries),
        checkpoint: agent::CheckpointView {
            validation_retries: governor::one_more(a.validation_retries),
            ..a.checkpoint
        },
        updated_at: ts,
        ..a
    }
}

/// Counts that a worker was told to mend its work.
pub fn count_validation_retry(agent: &mut AgentRecord, ts: u64)
    ensures
        final(agent)@ == after_mend(old(agent)@, ts),
{
    agent.validation_retries = agent.validation_retries.saturating_add(1);
    agent.checkpoint.validation_retries = agent.validation_retries;
    agent.updated_at = ts;
}

/// A worker is told to mend its work no more often than is allowed: each time is counted, and
/// once the count has reached the limit bad work makes the worker fail.
pub proof fn law_mending_is_limited(a: agent::AgentView, v: ValidationConfig, error: Seq<char>, ts: u64)
    requires
        a.validation_retries <= v.max_retries,
        v.fail_action@ == "retry"@,
    ensures
        may_mend(v, a.validation_retries) ==> after_mend(a, ts).validation_retries
            == a.validation_retries + 1 && after_mend(a, ts).validation_retries <= v.max_retries,
        a.validation_retries == v.max_retries ==> after_bad_work(a, v, error, ts).status
            == constants::AGENT_STATUS_FAILED@,
{
    reveal_strlit("retry");
    reveal_strlit("warn");
    assert("retry"@.len() == 5);
    assert("warn"@.len() == 4);
}

/// Bad work never passes for good work: it leaves its error behind, until later work is found
/// good, which takes the error away.
pub proof fn law_error_stays_until_success(
    a: agent::AgentView,
    v: ValidationConfig,
    error: Seq<char>,
    ts: u64,
)
    ensures
        after_bad_work(a, v, error, ts).last_validation_error == Some(error),
        after_bad_work(a, v, error, ts).checkpoint.last_validation_error == Some(error),
        after_mend(after_bad_work(a, v, error, ts), ts).last_validation_error == Some(error),
        after_success(after_bad_work(a, v, error, ts), ts).last_validation_error is None,
{
}

/// What comes of bad work is told by what is asked for: where it is to pass the worker goes on, and
/// where it is to be mended as long as it may; else the worker has failed, and so has its result.
pub proof fn law_bad_work_has_the_consequence_asked_for(
    a: agent::AgentView,
    v: ValidationConfig,
    error: Seq<char>,
    ts: u64,
)
    ensures
        v.fail_action@ == "warn"@ ==> after_bad_work(a, v, error, ts).status == a.status
            && after_bad_work(a, v, error, ts).result == a.result && after_bad_work(
            a,
            v,
            error,
            ts,
        ).worktree_path == a.worktree_path,
        v.fail_action@ == "retry"@ && a.validation_retries < v.max_retries ==> after_bad_work(
            a,
            v,
            error,
            ts,
        ).status == a.status && after_bad_work(a, v, error, ts).result == a.result,
        v.fail_action@ == "abort"@ || (v.fail_action@ == "retry"@ && a.validation_retries
            >= v.max_retries) ==> {
            let b = after_bad_work(a, v, error, ts);
            &&& b.status == "failed"@
            &&& b.error is Some && text::begins(b.error->0, error)
            &&& b.failure_report is Some && b.failure_report->0.class
                == FailureClass::ValidationFailed && !b.failure_report->0.retryable
            &&& a.result is Some ==> b.result is Some && b.result->0.status == "failed"@
                && b.result->0.error == b.error && b.result->0.completed_at
                == a.result->0.completed_at && b.result->0.agent_id == a.result->0.agent_id
            &&& a.result is None ==> b.result is None
            &&& b.worktree_path is None
        },
        after_bad_work(a, v, error, ts).validation_retries == a.validation_retries,
{
    reveal_strlit("warn");
    reveal_strlit("retry");
    reveal_strlit("abort");
    assert("warn"@.len() == 4 && "warn"@[0] == 'w');
    assert("retry"@.len() == 5 && "retry"@[0] == 'r');
    assert("abort"@.len() == 5 && "abort"@[0] == 'a');
    let m = give_up_message(v, a.validation_retries, error);
    assert(m.subrange(0, error.len() as int) == error);
    assert(text::occurs_at(m, error, 0));
}

/// A worker that is to mend its work is told what is wrong with it.
pub proof fn law_mending_is_told_what_is_wrong(error: Seq<char>)
    ensures
        text::has_text(mend_prompt(error), error),
        text::begins(mend_prompt(error), "Validation failed: "@),
{
    let head = "Validation failed: "@;
    let p = mend_prompt(error);
    assert(p.subrange(0, head.len() as int) == head);
    assert(text::occurs_at(p, head, 0));
    assert(p.subrange(head.len() as int, (head.len() + error.len()) as int) == error);
    assert(text::occurs_at(p, error, head.len() as int));
}

/// After a turn a worker takes another one until it took as many as it is to take, and only then
/// its work as a whole is checked; a worker that is busy again is left alone.
pub proof fn law_turns_come_before_the_last_check(
    r: Result<PostTurnStep, ForemanError>,
    validation: Option<ValidationConfig>,
    defaults: JobDefaultsConfig,
    status: Seq<char>,
    turns_completed: u32,
    cwd: Option<Seq<char>>,
)
    requires
        goes_on(r, validation, defaults, status, turns_completed, cwd),
    ensures
        status != "idle"@ && status != "completed"@ ==> r matches Ok(PostTurnStep::Done),
        (status == "idle"@ || status == "completed"@) && defaults.min_turns is Some
            && turns_completed < defaults.min_turns->0 && turns::continuation(turns_completed, defaults) is Some ==> r matches Ok(
            PostTurnStep::SendTurn { prompt },
        ),
        turns::continuation(turns_completed, defaults) is None ==> !(r matches Ok(
            PostTurnStep::SendTurn { prompt },
        )),
        r matches Ok(PostTurnStep::Validate { phase, commands, cwd }) ==> phase
            == ValidationPhase::OnComplete && validation is Some && text::texts(commands@)
            == text::texts(validation->0.on_complete@) && commands@.len() > 0,
        validation is None ==> !(r matches Ok(PostTurnStep::Validate { phase, commands, cwd }))
            && r is Ok,
        cwd is Some ==> r is Ok,
{
}

/// Only a turn that a worker of a project has completed is looked at.
pub proof fn law_only_workers_of_projects_are_looked_at(c: agent_events::ContextView)
    ensures
        c.role == AgentRole::Worker && c.method == "turn/completed"@ && c.project_id is Some
            ==> is_worker_turn(c),
        c.role != AgentRole::Worker ==> !is_worker_turn(c),
        c.method == "turn/aborted"@ ==> !is_worker_turn(c),
        c.project_id is None ==> !is_worker_turn(c),
{
    reveal_strlit("turn/completed");
    reveal_strlit("turn/aborted");
    assert("turn/completed"@.len() == 14 && "turn/aborted"@.len() == 12);
}

/// The commands that are run are those of the phase, in the directory of the worker; without a
/// directory there is an error that names the phase.
pub proof fn law_phases_run_their_commands(
    r: Result<PostTurnStep, ForemanError>,
    validation: Option<ValidationConfig>,
    phase: ValidationPhase,
    cwd: Option<Seq<char>>,
)
    requires
        validates(r, validation, phase, cwd),
    ensures
        cwd is None ==> r is Err,
        cwd is Some ==> r is Ok && r->Ok_0 is Validate && r->Ok_0->cwd@ == cwd->0 && r->Ok_0->phase
            == phase,
        cwd is Some && validation is Some && phase == ValidationPhase::OnTurn ==> text::texts(
            r->Ok_0->commands@,
        ) == text::texts(validation->0.on_turn@),
        cwd is Some && validation is Some && phase == ValidationPhase::OnComplete ==> text::texts(
            r->Ok_0->commands@,
        ) == text::texts(validation->0.on_complete@),
        commands_of(None, phase).len() == 0,
{
}

/// Good work takes the error away and keeps the count of what was mended; being told to mend adds
/// to it by one.
pub proof fn law_mending_is_counted(a: agent::AgentView, ts: u64)
    requires
        a.validation_retries < u32::MAX,
    ensures
        after_success(a, ts).last_validation_error is None,
        after_success(a, ts).checkpoint.last_validation_error is None,
        after_success(a, ts).validation_retries == a.validation_retries,
        after_success(a, ts).checkpoint.validation_retries == a.validation_retries,
        after_success(a, ts).status == a.status,
        after_mend(a, ts).validation_retries == a.validation_retries + 1,
        after_mend(a, ts).checkpoint.validation_retries == a.validation_retries + 1,
        after_mend(a, ts).status == a.status,
{
}

} // verus!

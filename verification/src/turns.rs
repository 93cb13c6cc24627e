//! How many turns a worker takes and what it is told between them.
use vstd::prelude::*;

use crate::constants;
use crate::project::JobDefaultsConfig;
use crate::text;
use crate::text::same_text;
use crate::text_search::decimal_text;

verus! {

/// Whether workers first explore, then plan, then execute.
pub open spec fn works_in_phases(defaults: JobDefaultsConfig) -> bool {
    defaults.strategy matches Some(s) && s@ == "explore-plan-execute"@
}

/// The fewest turns that a worker takes.
pub open spec fn min_turns(defaults: JobDefaultsConfig) -> u32 {
    if works_in_phases(defaults) {
        3
    } else {
        match defaults.min_turns {
            Some(n) => n,
            None => 0,
        }
    }
}

/// What a worker that works in phases is told after a turn.
pub open spec fn phase_prompt(turns_completed: u32) -> Seq<char> {
    if turns_completed == 1 {
        "Continue your work. Phase 1 complete. Now create a detailed plan: list every file you will change and what changes you will make. Do NOT make code changes yet."@
    } else if turns_completed == 2 {
        "Continue your work. Phase 2 complete. Execute your plan now: make the changes, verify they compile/run correctly, then commit."@
    } else {
        "Continue your work. Review your changes, ensure they are complete and correct, then commit if not already done."@
    }
}

/// What a worker is told after a turn, where it has to go on.
pub open spec fn continuation(turns_completed: u32, defaults: JobDefaultsConfig) -> Option<
    Seq<char>,
> {
    if turns_completed >= min_turns(defaults) {
        None
    } else if works_in_phases(defaults) {
        Some(phase_prompt(turns_completed))
    } else {
        Some(
            "Continue your work. You have completed turn "@ + text::decimal(turns_completed as nat)
                + " of at least "@ + text::decimal(min_turns(defaults) as nat) + " required."@,
        )
    }
}

fn has_phases(defaults: &JobDefaultsConfig) -> (r: bool)
    ensures
        r == works_in_phases(*defaults),
{
    match &defaults.strategy {
        Some(s) => same_text(s.as_str(), "explore-plan-execute"),
        None => false,
    }
}

/// The fewest turns that a worker takes.
pub fn effective_min_turns(defaults: &JobDefaultsConfig) -> (r: u32)
    ensures
        r == min_turns(*defaults),
{
    if has_phases(defaults) {
        3
    } else {
        match defaults.min_turns {
            Some(n) => n,
            None => 0,
        }
    }
}

/// What a worker is told after a turn, where it has to go on.
pub fn continuation_prompt_for_turn(turns_completed: u32, defaults: &JobDefaultsConfig) -> (r: Option<
    String,
>)
    ensures
        text::opt_text(r) == continuation(turns_completed, *defaults),
{
    let least = effective_min_turns(defaults);
    if least == 0 || turns_completed >= least {
        return None;
    }
    if has_phases(defaults) {
        let prompt = if turns_completed == 1 {
            "Continue your work. Phase 1 complete. Now create a detailed plan: list every file you will change and what changes you will make. Do NOT make code changes yet."
        } else if turns_completed == 2 {
            "Continue your work. Phase 2 complete. Execute your plan now: make the changes, verify they compile/run correctly, then commit."
        } else {
            "Continue your work. Review your changes, ensure they are complete and correct, then commit if not already done."
        };
        return Some(prompt.to_owned());
    }
    let mut prompt = "Continue your work. You have completed turn ".to_owned();
    prompt.append(decimal_text(turns_completed as u128).as_str());
    prompt.append(" of at least ");
    prompt.append(decimal_text(least as u128).as_str());
    prompt.append(" required.");
    Some(prompt)
}

/// The count of a project's turns after one more, and whether the project is to be compacted.
pub open spec fn next_turn_count(completed: u64, compact_after: Option<u64>) -> (u64, bool) {
    match compact_after {
        Some(n) => if n == 0 {
            (completed, false)
        } else if completed + 1 >= n || completed == u64::MAX {
            (0, true)
        } else {
            ((completed + 1) as u64, false)
        },
        None => (completed, false),
    }
}

/// The count of a project's turns after one more, and whether the project is to be compacted.
pub fn update_completed_turn_counter(completed_turns: u64, compact_after_turns: Option<u64>) -> (r: (
    u64,
    bool,
))
    ensures
        r == next_turn_count(completed_turns, compact_after_turns),
{
    let limit: u64 = match compact_after_turns {
        Some(n) => n,
        None => 0,
    };
    if limit == 0 {
        return (completed_turns, false);
    }
    let next: u64 = completed_turns.saturating_add(1);
    if next >= limit {
        (0, true)
    } else {
        (next, false)
    }
}

/// The time limit of a callback: five seconds unless it has its own, and none where its own is
/// zero.
pub open spec fn time_limit(custom_ms: Option<u64>) -> Option<u64> {
    match custom_ms {
        Some(n) => if n == 0 {
            None
        } else {
            Some(n)
        },
        None => Some(constants::DEFAULT_WORKER_CALLBACK_TIMEOUT_MS),
    }
}

/// The time limit of a callback.
pub fn callback_timeout_ms(custom_ms: Option<u64>) -> (r: Option<u64>)
    ensures
        r == time_limit(custom_ms),
{
    let timeout: u64 = match custom_ms {
        Some(n) => n,
        None => constants::DEFAULT_WORKER_CALLBACK_TIMEOUT_MS,
    };
    if timeout == 0 {
        None
    } else {
        Some(timeout)
    }
}

/// Whether the workers of a job get worktrees of their own.
pub open spec fn uses_worktrees(defaults: JobDefaultsConfig, worker_count: nat) -> bool {
    defaults.worktree_mode@ == "always"@ || (defaults.worktree_mode@ == "auto"@ && worker_count > 1)
}

/// Whether the workers of a job get worktrees of their own.
pub fn should_use_native_worktree(defaults: &JobDefaultsConfig, worker_count: usize) -> (r: bool)
    ensures
        r == uses_worktrees(*defaults, worker_count as nat),
{
    same_text(defaults.worktree_mode.as_str(), "always") || (same_text(
        defaults.worktree_mode.as_str(),
        "auto",
    ) && worker_count > 1)
}

/// The count stays below a limit that is not zero, and a project is compacted exactly when the
/// count would reach it.
pub proof fn law_turn_counter_stays_below_the_limit(completed: u64, limit: u64)
    requires
        0 < limit,
        completed < limit,
    ensures
        next_turn_count(completed, Some(limit)).0 < limit,
        next_turn_count(completed, Some(limit)).1 <==> completed + 1 == limit,
{
}

/// How many turns pass, from a count on, until a project is compacted.
pub open spec fn count_after(completed: u64, limit: u64, turns: nat) -> u64
    decreases turns,
{
    if turns == 0 {
        completed
    } else {
        next_turn_count(count_after(completed, limit, (turns - 1) as nat), Some(limit)).0
    }
}

/// From a fresh count, a project is compacted once in as many turns as the limit says.
pub proof fn law_one_compaction_per_limit(limit: u64, turns: nat)
    requires
        0 < limit,
    ensures
        count_after(0, limit, turns) == turns % (limit as nat),
    decreases turns,
{
    if turns > 0 {
        law_one_compaction_per_limit(limit, (turns - 1) as nat);
        let before = (turns - 1) % (limit as int);
        vstd::arithmetic::div_mod::lemma_small_mod((turns - 1) as nat % (limit as nat), limit as nat);
        assert(turns % (limit as nat) == (if before + 1 == limit {
            0
        } else {
            before + 1
        })) by (nonlinear_arith)
            requires
                turns > 0,
                limit > 0,
                before == (turns - 1) % (limit as int),
        ;
    } else {
        assert(0nat % (limit as nat) == 0) by (nonlinear_arith)
            requires
                limit > 0,
        ;
    }
}

/// A worker goes on exactly while it has taken fewer turns than it has to: three where it works in
/// phases, else as many as are asked for, and none where nothing is asked for.
pub proof fn law_workers_go_on_until_they_took_their_turns(
    turns_completed: u32,
    defaults: JobDefaultsConfig,
)
    ensures
        ({
            let phases = defaults.strategy is Some && defaults.strategy->0@
                == "explore-plan-execute"@;
            let told = continuation(turns_completed, defaults);
            &&& phases ==> (told is Some <==> turns_completed < 3)
            &&& !phases && defaults.min_turns is None ==> told is None
            &&& !phases && defaults.min_turns is Some ==> (told is Some <==> turns_completed
                < defaults.min_turns->0)
            &&& phases && turns_completed == 1 ==> told == Some(
                "Continue your work. Phase 1 complete. Now create a detailed plan: list every file you will change and what changes you will make. Do NOT make code changes yet."@,
            )
            &&& phases && turns_completed == 2 ==> told == Some(
                "Continue your work. Phase 2 complete. Execute your plan now: make the changes, verify they compile/run correctly, then commit."@,
            )
            &&& !phases && told is Some ==> told->0
                == "Continue your work. You have completed turn "@ + text::decimal(
                turns_completed as nat,
            ) + " of at least "@ + text::decimal(defaults.min_turns->0 as nat) + " required."@
        }),
{
}

/// Without a limit, or with a limit of zero, a project is never compacted and counts nothing.
pub proof fn law_no_limit_no_compaction(completed: u64)
    ensures
        next_turn_count(completed, None) == (completed, false),
        next_turn_count(completed, Some(0)) == (completed, false),
        forall|limit: u64|
            0 < limit && completed + 1 < limit ==> #[trigger] next_turn_count(
                completed,
                Some(limit),
            ) == ((completed + 1) as u64, false),
        forall|limit: u64|
            0 < limit <= completed + 1 ==> #[trigger] next_turn_count(completed, Some(limit)) == (
                0u64,
                true,
            ),
{
}

/// A callback has five seconds where nothing is said, as long as is said where that is not zero,
/// and no limit where it is.
pub proof fn law_callbacks_have_five_seconds_unless_told(ms: u64)
    ensures
        time_limit(None) == Some(5000u64),
        time_limit(Some(0)) is None,
        ms > 0 ==> time_limit(Some(ms)) == Some(ms),
{
}

/// Workers get worktrees of their own always, never, or where they are more than one, as the mode
/// says.
pub proof fn law_mode_decides_on_worktrees(defaults: JobDefaultsConfig, worker_count: nat)
    ensures
        defaults.worktree_mode@ == "always"@ ==> uses_worktrees(defaults, worker_count),
        defaults.worktree_mode@ == "auto"@ ==> (uses_worktrees(defaults, worker_count)
            <==> worker_count > 1),
        defaults.worktree_mode@ != "always"@ && defaults.worktree_mode@ != "auto"@
            ==> !uses_worktrees(defaults, worker_count),
{
    reveal_strlit("always");
    reveal_strlit("auto");
    assert("always"@.len() == 6 && "auto"@.len() == 4);
}

/// In phases, a worker that has no turn behind it is asked to look over what it did.
pub proof fn law_phases_begin_with_a_review(defaults: JobDefaultsConfig)
    requires
        defaults.strategy is Some,
        defaults.strategy->0@ == "explore-plan-execute"@,
    ensures
        continuation(0, defaults) == Some(
            "Continue your work. Review your changes, ensure they are complete and correct, then commit if not already done."@,
        ),
        min_turns(defaults) == 3,
{
}

} // verus!

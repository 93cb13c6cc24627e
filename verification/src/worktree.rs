//! The worktrees in which workers work: the commands that make, merge and remove them, and what
//! comes of running the commands.
use vstd::prelude::*;

use crate::agent;
use crate::agent::{AgentRecord, AgentRole};
use crate::agent_events;
use crate::agent_events::CallbackEventContext;
use crate::constants;
use crate::error::ForemanError;
use crate::failure;
use crate::failure::update_failure_report;
use crate::ids;
use crate::ids::short_uuid;
use crate::job;
use crate::job::{is_worker_failure, JobRecord};
use crate::models::{FailureClass, WorkerWorktreeSpec};
use crate::paths;
use crate::paths::join_path;
use crate::text;
use crate::text::{same_text, trim, trims_to_empty};
use crate::text_search::{decimal_int_text, join, list_has};

verus! {

/// The branch of a worker.
pub open spec fn branch_of(job_id: u128, worker_id: u128) -> Seq<char> {
    "foreman/"@ + ids::uuid_text(job_id).take(8) + "/"@ + ids::uuid_text(worker_id).take(8)
}

/// The branch of a worker.
pub fn build_worker_branch_name(job_id: u128, worker_id: u128) -> (r: String)
    ensures
        r@ == branch_of(job_id, worker_id),
{
    let mut name = "foreman/".to_owned();
    name.append(short_uuid(job_id).as_str());
    name.append("/");
    name.append(short_uuid(worker_id).as_str());
    name
}

/// Where the worktree of a worker is.
pub open spec fn worktree_of(project_path: Seq<char>, worker_id: u128) -> Seq<char> {
    paths::below(
        paths::below(paths::below(project_path, ".foreman"@), "worktrees"@),
        ids::uuid_text(worker_id).take(8),
    )
}

/// Where the worktree of a worker is.
pub fn build_worker_worktree_path(project_path: &str, worker_id: u128) -> (r: String)
    ensures
        r@ == worktree_of(project_path@, worker_id),
{
    let runtime = join_path(project_path, ".foreman");
    let worktrees = join_path(runtime.as_str(), "worktrees");
    join_path(worktrees.as_str(), short_uuid(worker_id).as_str())
}

/// A git command, and what it is for.
#[derive(Debug, Clone)]
pub struct GitCommand {
    pub args: Vec<String>,
    pub action: String,
}

/// What a command says: its arguments, and what it is for.
pub open spec fn command_view(c: GitCommand) -> (Seq<Seq<char>>, Seq<char>) {
    (text::texts(c.args@), c.action@)
}

/// What the commands say.
pub open spec fn command_views(cs: Seq<GitCommand>) -> Seq<(Seq<Seq<char>>, Seq<char>)> {
    cs.map_values(|c: GitCommand| command_view(c))
}

/// The arguments with which git runs a command in a project.
pub fn git_args(project_path: &str, command: &GitCommand) -> (r: Vec<String>)
    ensures
        text::texts(r@) == seq![constants::WORKTREE_OPTION_WORKDIR@, project_path@]
            + command_view(*command).0,
{
    let mut args: Vec<String> = Vec::new();
    args.push(constants::WORKTREE_OPTION_WORKDIR.to_owned());
    args.push(project_path.to_owned());
    let mut i: usize = 0;
    while i < command.args.len()
        invariant
            i <= command.args@.len(),
            args@.len() == i + 2,
            args@[0]@ == constants::WORKTREE_OPTION_WORKDIR@,
            args@[1]@ == project_path@,
            forall|k: int| 0 <= k < i ==> (#[trigger] args@[k + 2])@ == command.args@[k]@,
        decreases command.args@.len() - i,
    {
        args.push(command.args[i].clone());
        i += 1;
    }
    proof {
        let all = text::texts(args@);
        let wanted = seq![constants::WORKTREE_OPTION_WORKDIR@, project_path@] + command_view(
            *command,
        ).0;
        assert forall|k: int| 0 <= k < all.len() implies all[k] == wanted[k] by {
            if k >= 2 {
                assert(args@[(k - 2) + 2]@ == command.args@[k - 2]@);
            }
        }
        assert(all == wanted);
    }
    args
}

/// The arguments with which a shell runs a command that checks a worker's work.
pub fn validation_args(command: &str) -> (r: Vec<String>)
    ensures
        text::texts(r@) == seq!["-lc"@, command@],
{
    let mut args: Vec<String> = Vec::new();
    args.push("-lc".to_owned());
    args.push(command.to_owned());
    assert(text::texts(args@) == seq!["-lc"@, command@]);
    args
}

/// A command of two arguments.
fn command2(a: &str, b: &str, action: &str) -> (r: GitCommand)
    ensures
        command_view(r) == (seq![a@, b@], action@),
{
    let mut args: Vec<String> = Vec::new();
    args.push(a.to_owned());
    args.push(b.to_owned());
    assert(text::texts(args@) == seq![a@, b@]);
    GitCommand { args, action: action.to_owned() }
}

/// A command of three arguments.
fn command3(a: &str, b: &str, c: &str, action: &str) -> (r: GitCommand)
    ensures
        command_view(r) == (seq![a@, b@, c@], action@),
{
    let mut args: Vec<String> = Vec::new();
    args.push(a.to_owned());
    args.push(b.to_owned());
    args.push(c.to_owned());
    assert(text::texts(args@) == seq![a@, b@, c@]);
    GitCommand { args, action: action.to_owned() }
}

/// A command of four arguments.
fn command4(a: &str, b: &str, c: &str, d: &str, action: &str) -> (r: GitCommand)
    ensures
        command_view(r) == (seq![a@, b@, c@, d@], action@),
{
    let mut args: Vec<String> = Vec::new();
    args.push(a.to_owned());
    args.push(b.to_owned());
    args.push(c.to_owned());
    args.push(d.to_owned());
    assert(text::texts(args@) == seq![a@, b@, c@, d@]);
    GitCommand { args, action: action.to_owned() }
}

/// A command as it is written out.
pub open spec fn command_line(project_path: Seq<char>, args: Seq<Seq<char>>) -> Seq<char> {
    "git -C "@ + project_path + " "@ + text::joined(args, " "@)
}

fn write_command_line(project_path: &str, args: &Vec<String>) -> (r: String)
    ensures
        r@ == command_line(project_path@, text::texts(args@)),
{
    let mut line = "git -C ".to_owned();
    line.append(project_path);
    line.append(" ");
    line.append(join(args, " ").as_str());
    line
}

/// How a command that could not be run is reported.
pub open spec fn not_run(
    project_path: Seq<char>,
    args: Seq<Seq<char>>,
    action: Seq<char>,
    error: Seq<char>,
) -> Seq<Seq<char>> {
    seq![
        "failed to execute git command for "@ + action + ": "@ + command_line(project_path, args),
        error,
    ]
}

/// A text, or a word for that there is none.
pub open spec fn shown(t: Seq<char>) -> Seq<char> {
    if t.len() == 0 {
        "<empty>"@
    } else {
        t
    }
}

/// The exit code that is reported: -1 where there was none.
pub open spec fn reported_code(code: Option<i32>) -> int {
    match code {
        Some(c) => c as int,
        None => -1,
    }
}

/// How a command that failed is reported.
pub open spec fn command_failure(
    project_path: Seq<char>,
    args: Seq<Seq<char>>,
    action: Seq<char>,
    code: Option<i32>,
    stdout: Seq<char>,
    stderr: Seq<char>,
) -> Seq<char> {
    action + " failed (exit "@ + text::decimal_int(reported_code(code)) + ") for "@ + command_line(
        project_path,
        args,
    ) + ". stdout: "@ + shown(text::trimmed(stdout)) + " stderr: "@ + shown(text::trimmed(stderr))
}

/// What came of running a program.
#[derive(Debug, Clone)]
pub struct ProgramOutput {
    pub success: bool,
    pub code: Option<i32>,
    pub stdout: String,
    pub stderr: String,
}

fn code_text(code: Option<i32>) -> (r: String)
    ensures
        r@ == text::decimal_int(reported_code(code)),
{
    match code {
        Some(c) => decimal_int_text(c as i64),
        None => decimal_int_text(-1),
    }
}

fn append_shown(out: &mut String, t: &str)
    ensures
        final(out)@ == old(out)@ + shown(t@),
{
    if t.is_empty() {
        out.append("<empty>");
    } else {
        out.append(t);
    }
}

/// What a git command gave: what it wrote, or how it failed.
pub fn run_git_command(
    project_path: &str,
    command: &GitCommand,
    output: Result<ProgramOutput, String>,
) -> (r: Result<String, ForemanError>)
    ensures
        match output {
            Ok(o) => if o.success {
                r matches Ok(t) && t@ == text::trimmed(o.stdout@)
            } else {
                r matches Err(e) && e@ == seq![
                    command_failure(
                        project_path@,
                        text::texts(command.args@),
                        command.action@,
                        o.code,
                        o.stdout@,
                        o.stderr@,
                    ),
                ]
            },
            Err(error) => r matches Err(e) && e@ == not_run(
                project_path@,
                text::texts(command.args@),
                command.action@,
                error@,
            ),
        },
{
    match output {
        Ok(o) => {
            let stdout = trim(o.stdout.as_str());
            if o.success {
                return Ok(stdout);
            }
            let stderr = trim(o.stderr.as_str());
            let mut message = command.action.clone();
            message.append(" failed (exit ");
            message.append(code_text(o.code).as_str());
            message.append(") for ");
            message.append(write_command_line(project_path, &command.args).as_str());
            message.append(". stdout: ");
            append_shown(&mut message, stdout.as_str());
            message.append(" stderr: ");
            append_shown(&mut message, stderr.as_str());
            Err(ForemanError::new(message))
        },
        Err(error) => {
            let mut message = "failed to execute git command for ".to_owned();
            message.append(command.action.as_str());
            message.append(": ");
            message.append(write_command_line(project_path, &command.args).as_str());
            let e = ForemanError::new(error).context(message);
            assert(e@ == not_run(
                project_path@,
                text::texts(command.args@),
                command.action@,
                error@,
            ));
            Err(e)
        },
    }
}

/// The command that asks for the branch that is checked out.
pub fn base_branch_command() -> (r: GitCommand)
    ensures
        command_view(r) == (seq!["symbolic-ref"@, "--short"@, "HEAD"@], "detect base branch"@),
{
    command3("symbolic-ref", "--short", "HEAD", "detect base branch")
}

/// The branch from which workers start: the one that is checked out, or `main`.
pub fn detect_base_branch(answer: Result<String, ForemanError>) -> (r: String)
    ensures
        r@ == (match answer {
            Ok(branch) => if text::is_blank(branch@) {
                "main"@
            } else {
                branch@
            },
            Err(_) => "main"@,
        }),
{
    match answer {
        Ok(branch) => if trims_to_empty(branch.as_str()) {
            "main".to_owned()
        } else {
            branch
        },
        Err(_) => "main".to_owned(),
    }
}

/// The command that makes the worktree and the branch of a worker.
pub fn worker_worktree_command(worktree_path: &str, branch_name: &str) -> (r: GitCommand)
    ensures
        command_view(r) == (
            seq!["worktree"@, "add"@, worktree_path@, "-b"@, branch_name@],
            "create worker worktree"@,
        ),
{
    let mut args: Vec<String> = Vec::new();
    args.push("worktree".to_owned());
    args.push("add".to_owned());
    args.push(worktree_path.to_owned());
    args.push("-b".to_owned());
    args.push(branch_name.to_owned());
    assert(text::texts(args@) == seq!["worktree"@, "add"@, worktree_path@, "-b"@, branch_name@]);
    GitCommand { args, action: "create worker worktree".to_owned() }
}

/// The commands that merge a worker's branch, and why there is nothing after them.
#[derive(Debug, Clone)]
pub struct MergePlan {
    pub commands: Vec<GitCommand>,
    pub problem: Option<String>,
}

/// The commands that merge a worker's branch.
pub open spec fn merge_commands(base: Seq<char>, branch: Seq<char>, strategy: Seq<char>) -> Seq<
    (Seq<Seq<char>>, Seq<char>),
> {
    let checkout = (seq!["checkout"@, base], "checkout base branch before merge"@);
    if strategy == "sequential"@ {
        seq![checkout, (seq!["merge"@, "--no-ff"@, branch], "merge worker branch"@)]
    } else if strategy == "rebase"@ {
        seq![
            checkout,
            (seq!["rebase"@, base, branch], "rebase worker branch"@),
            (seq!["merge"@, "--no-ff"@, branch], "merge rebased worker branch"@),
        ]
    } else {
        seq![checkout]
    }
}

/// Why a branch cannot be merged, once the base branch is checked out.
pub open spec fn merge_problem(strategy: Seq<char>) -> Option<Seq<char>> {
    if strategy == "manual"@ || strategy == "sequential"@ || strategy == "rebase"@ {
        None
    } else {
        Some("unsupported merge strategy '"@ + strategy + "'"@)
    }
}

/// The commands that merge a worker's branch.
pub fn merge_worker_branch(base_branch: &str, branch_name: &str, strategy: &str) -> (r: MergePlan)
    ensures
        command_views(r.commands@) == merge_commands(base_branch@, branch_name@, strategy@),
        text::opt_text(r.problem) == merge_problem(strategy@),
{
    proof {
        reveal_strlit("manual");
        reveal_strlit("sequential");
        reveal_strlit("rebase");
        assert("manual"@.len() == 6 && "rebase"@.len() == 6);
        assert("sequential"@.len() == 10);
        assert("manual"@[0] == 'm' && "rebase"@[0] == 'r');
    }
    let mut commands: Vec<GitCommand> = Vec::new();
    commands.push(command2("checkout", base_branch, "checkout base branch before merge"));
    let mut problem: Option<String> = None;
    if same_text(strategy, "sequential") {
        commands.push(command3("merge", "--no-ff", branch_name, "merge worker branch"));
    } else if same_text(strategy, "rebase") {
        commands.push(command3("rebase", base_branch, branch_name, "rebase worker branch"));
        commands.push(command3("merge", "--no-ff", branch_name, "merge rebased worker branch"));
    } else if !same_text(strategy, "manual") {
        let mut message = "unsupported merge strategy '".to_owned();
        message.append(strategy);
        message.append("'");
        problem = Some(message);
    }
    assert(command_views(commands@) == merge_commands(base_branch@, branch_name@, strategy@));
    MergePlan { commands, problem }
}

/// The commands that remove a worktree, and the branch where it was merged.
pub open spec fn cleanup_commands(
    worktree_path: Seq<char>,
    branch: Option<Seq<char>>,
    was_merged: bool,
) -> Seq<(Seq<Seq<char>>, Seq<char>)> {
    let remove = (
        seq!["worktree"@, "remove"@, "--force"@, worktree_path],
        "remove worker worktree"@,
    );
    match branch {
        Some(b) => if was_merged {
            seq![remove, (seq!["branch"@, "-d"@, b], "delete merged worker branch"@)]
        } else {
            seq![remove]
        },
        None => seq![remove],
    }
}

/// The commands that remove a worktree, and the branch where it was merged.
pub fn cleanup_worker_worktree(
    worktree_path: &str,
    branch_name: &Option<String>,
    was_merged: bool,
) -> (r: Vec<GitCommand>)
    ensures
        command_views(r@) == cleanup_commands(
            worktree_path@,
            text::opt_text(*branch_name),
            was_merged,
        ),
{
    let mut commands: Vec<GitCommand> = Vec::new();
    commands.push(
        command4("worktree", "remove", "--force", worktree_path, "remove worker worktree"),
    );
    if was_merged {
        if let Some(branch) = branch_name {
            commands.push(command3("branch", "-d", branch.as_str(), "delete merged worker branch"));
        }
    }
    assert(command_views(commands@) == cleanup_commands(
        worktree_path@,
        text::opt_text(*branch_name),
        was_merged,
    ));
    commands
}

/// Where a worker works, or how that is found out.
#[derive(Debug, Clone)]
pub enum CwdPlan {
    /// In this directory.
    Use(String),
    /// In this worktree, which is made first.
    Create { path: String, base_ref: Option<String> },
    /// In this worktree, which has to be there.
    Check { path: String },
}

/// Where a worker works, or how that is found out.
pub fn resolve_worker_cwd(
    project_path: &str,
    requested_cwd: &Option<String>,
    worktree: &Option<WorkerWorktreeSpec>,
) -> (r: CwdPlan)
    ensures
        match *worktree {
            None => r matches CwdPlan::Use(p) && p@ == (match *requested_cwd {
                Some(cwd) => cwd@,
                None => project_path@,
            }),
            Some(w) => if w.create {
                r matches CwdPlan::Create { path, base_ref } && path@ == paths::below(
                    project_path@,
                    w.path@,
                ) && text::opt_text(base_ref) == text::opt_text(w.base_ref)
            } else {
                r matches CwdPlan::Check { path } && path@ == paths::below(project_path@, w.path@)
            },
        },
{
    match worktree {
        None => match requested_cwd {
            Some(cwd) => CwdPlan::Use(cwd.clone()),
            None => CwdPlan::Use(project_path.to_owned()),
        },
        Some(w) => {
            let path = join_path(project_path, w.path.as_str());
            if w.create {
                CwdPlan::Create { path, base_ref: w.base_ref.clone() }
            } else {
                CwdPlan::Check { path }
            }
        },
    }
}

/// A worktree that has to be there is taken where it is a directory.
pub fn check_worktree_path(path: String, present: bool, is_dir: bool) -> (r: Result<
    String,
    ForemanError,
>)
    ensures
        if !present {
            r matches Err(e) && e@ == seq!["requested worktree path does not exist: "@ + path@]
        } else if !is_dir {
            r matches Err(e) && e@ == seq!["requested worktree path is not a directory: "@ + path@]
        } else {
            r matches Ok(p) && p@ == path@
        },
{
    if !present {
        let mut message = "requested worktree path does not exist: ".to_owned();
        message.append(path.as_str());
        return Err(ForemanError::new(message));
    }
    if !is_dir {
        let mut message = "requested worktree path is not a directory: ".to_owned();
        message.append(path.as_str());
        return Err(ForemanError::new(message));
    }
    Ok(path)
}

/// The arguments that ask git whether a directory is in a worktree.
pub fn worktree_verify_args(worktree_path: &str) -> (r: Vec<String>)
    ensures
        text::texts(r@) == seq!["-C"@, worktree_path@, "rev-parse"@, "--is-inside-work-tree"@],
{
    let mut args: Vec<String> = Vec::new();
    args.push(constants::WORKTREE_OPTION_WORKDIR.to_owned());
    args.push(worktree_path.to_owned());
    args.push(constants::WORKTREE_VERIFY_COMMAND.to_owned());
    args.push(constants::WORKTREE_VERIFY_ARG.to_owned());
    assert(text::texts(args@) == seq![
        "-C"@,
        worktree_path@,
        "rev-parse"@,
        "--is-inside-work-tree"@,
    ]);
    args
}

/// Whether git said that a directory is in a worktree.
pub open spec fn is_worktree(o: ProgramOutput) -> bool {
    o.success && text::trimmed(o.stdout@) == "true"@
}

/// A path that is there is taken for a worktree that is to be made only where it is one. Without
/// an answer of git, as for what is no directory, it is none.
pub fn accept_existing_worktree(
    worktree_path: &str,
    answer: Option<Result<ProgramOutput, String>>,
) -> (r: Result<(), ForemanError>)
    ensures
        match answer {
            Some(Err(error)) => r matches Err(e) && e@ == seq![
                "failed to check existing worktree at "@ + worktree_path@,
                error@,
            ],
            Some(Ok(o)) => if is_worktree(o) {
                r is Ok
            } else {
                r matches Err(e) && e@ == seq![
                    "worktree path already exists but is not a git worktree: "@ + worktree_path@,
                ]
            },
            None => r matches Err(e) && e@ == seq![
                "worktree path already exists but is not a git worktree: "@ + worktree_path@,
            ],
        },
{
    match answer {
        Some(Err(error)) => {
            let mut message = "failed to check existing worktree at ".to_owned();
            message.append(worktree_path);
            let e = ForemanError::new(error).context(message);
            assert(e@ == seq![message@, error@]);
            return Err(e);
        },
        Some(Ok(o)) => {
            let said = trim(o.stdout.as_str());
            if o.success && same_text(said.as_str(), "true") {
                return Ok(());
            }
        },
        None => {},
    }
    let mut message = "worktree path already exists but is not a git worktree: ".to_owned();
    message.append(worktree_path);
    Err(ForemanError::new(message))
}

/// The commit from which a worktree is made.
pub open spec fn base_ref_of(base_ref: Option<Seq<char>>) -> Seq<char> {
    match base_ref {
        Some(b) => b,
        None => constants::WORKTREE_BASE_REF_DEFAULT@,
    }
}

/// The arguments that make a worktree.
pub fn create_worktree_args(
    project_path: &str,
    worktree_path: &str,
    base_ref: &Option<String>,
) -> (r: Vec<String>)
    ensures
        text::texts(r@) == seq![
            "-C"@,
            project_path@,
            "worktree"@,
            "add"@,
            worktree_path@,
            base_ref_of(text::opt_text(*base_ref)),
        ],
{
    let mut args: Vec<String> = Vec::new();
    args.push(constants::WORKTREE_OPTION_WORKDIR.to_owned());
    args.push(project_path.to_owned());
    args.push(constants::WORKTREE_COMMAND.to_owned());
    args.push(constants::WORKTREE_ARG_ADD.to_owned());
    args.push(worktree_path.to_owned());
    match base_ref {
        Some(b) => {
            args.push(b.clone());
        },
        None => {
            args.push(constants::WORKTREE_BASE_REF_DEFAULT.to_owned());
        },
    }
    assert(text::texts(args@) == seq![
        "-C"@,
        project_path@,
        "worktree"@,
        "add"@,
        worktree_path@,
        base_ref_of(text::opt_text(*base_ref)),
    ]);
    args
}

/// What came of making a worktree.
pub fn create_worktree(worktree_path: &str, output: Result<ProgramOutput, String>) -> (r: Result<
    (),
    ForemanError,
>)
    ensures
        match output {
            Ok(o) => if o.success {
                r is Ok
            } else {
                r matches Err(e) && e@ == seq![
                    "failed to create worker worktree at "@ + worktree_path@ + ": "@
                        + text::trimmed(o.stderr@) + " "@ + text::trimmed(o.stdout@),
                ]
            },
            Err(error) => r matches Err(e) && e@ == seq![
                "failed to run git worktree add for "@ + worktree_path@,
                error@,
            ],
        },
{
    match output {
        Ok(o) => {
            if o.success {
                return Ok(());
            }
            let mut message = "failed to create worker worktree at ".to_owned();
            message.append(worktree_path);
            message.append(": ");
            message.append(trim(o.stderr.as_str()).as_str());
            message.append(" ");
            message.append(trim(o.stdout.as_str()).as_str());
            Err(ForemanError::new(message))
        },
        Err(error) => {
            let mut message = "failed to run git worktree add for ".to_owned();
            message.append(worktree_path);
            let e = ForemanError::new(error).context(message);
            assert(e@ == seq![message@, error@]);
            Err(e)
        },
    }
}

/// What is done with a worker's worktree after an event.
#[derive(Debug, Clone)]
pub struct WorktreePlan {
    pub worktree_path: String,
    pub branch_name: Option<String>,
    /// The branch that is merged into the base branch.
    pub merge: Option<String>,
    /// Whether the worktree is removed whatever came of a merge.
    pub remove: bool,
}

/// Whether an event says that a worker's turn is complete.
pub open spec fn says_completed(c: agent_events::ContextView) -> bool {
    c.method == constants::EVENT_METHOD_TURN_COMPLETED@
}

/// Whether an event says that a worker failed.
pub open spec fn says_aborted(c: agent_events::ContextView) -> bool {
    c.method == constants::EVENT_METHOD_TURN_ABORTED@ || (c.result_snapshot matches Some(r)
        && job::worker_failed(r))
}

/// Whether an event may do something to a worktree: it ends the work of a worker in a job of a
/// project.
pub open spec fn concerns_worktree(c: agent_events::ContextView) -> bool {
    c.role == AgentRole::Worker && c.project_id is Some && c.job_id is Some && (says_completed(c)
        || says_aborted(c))
}

/// Whether an event may do something to a worktree.
pub fn may_concern_worktree(context: &CallbackEventContext) -> (r: bool)
    ensures
        r == concerns_worktree(context@),
{
    context.role == AgentRole::Worker && context.project_id.is_some() && context.job_id.is_some()
        && (same_text(context.method.as_str(), constants::EVENT_METHOD_TURN_COMPLETED)
        || is_aborted(context))
}

fn is_aborted(context: &CallbackEventContext) -> (r: bool)
    ensures
        r == says_aborted(context@),
{
    if same_text(context.method.as_str(), constants::EVENT_METHOD_TURN_ABORTED) {
        return true;
    }
    match &context.result_snapshot {
        Some(result) => is_worker_failure(result),
        None => false,
    }
}

/// The branch that is merged after an event.
pub open spec fn branch_to_merge(
    c: agent_events::ContextView,
    a: agent::AgentView,
    strategy: Seq<char>,
) -> Option<Seq<char>> {
    if says_completed(c) && strategy != "manual"@ {
        a.branch_name
    } else {
        None
    }
}

/// What is done with a worker's worktree after an event: the branch of a complete turn is merged
/// unless that is left to people, and the worktree of a failed worker is removed.
pub fn handle_worker_worktree_lifecycle(
    context: &CallbackEventContext,
    agent: &AgentRecord,
    merge_strategy: &str,
) -> (r: Option<WorktreePlan>)
    ensures
        r is Some == (concerns_worktree(context@) && agent@.worktree_path is Some),
        r matches Some(p) ==> {
            &&& Some(p.worktree_path@) == agent@.worktree_path
            &&& text::opt_text(p.branch_name) == agent@.branch_name
            &&& text::opt_text(p.merge) == branch_to_merge(context@, agent@, merge_strategy@)
            &&& p.remove == says_aborted(context@)
        },
{
    if !may_concern_worktree(context) {
        return None;
    }
    let completed = same_text(context.method.as_str(), constants::EVENT_METHOD_TURN_COMPLETED);
    match &agent.worktree_path {
        Some(path) => {
            let merge = if completed && !same_text(merge_strategy, "manual") {
                agent.branch_name.clone()
            } else {
                None
            };
            Some(
                WorktreePlan {
                    worktree_path: path.clone(),
                    branch_name: agent.branch_name.clone(),
                    merge,
                    remove: is_aborted(context),
                },
            )
        },
        None => None,
    }
}

/// A job of which a branch was merged.
pub open spec fn after_merge(j: job::JobView, branch: Seq<char>, ts: u64) -> job::JobView {
    if j.merged_branches.contains(branch) {
        j
    } else {
        job::JobView { merged_branches: j.merged_branches.push(branch), updated_at: ts, ..j }
    }
}

/// Takes note of a branch that was merged.
pub fn record_merged_branch(job: &mut JobRecord, branch: &str, ts: u64)
    ensures
        final(job)@ == after_merge(old(job)@, branch@, ts),
{
    if !list_has(&job.merged_branches, branch) {
        let ghost before = job.merged_branches@;
        let name = branch.to_owned();
        job.merged_branches.push(name);
        assert(text::texts(job.merged_branches@) == text::texts(before).push(branch@));
        job.updated_at = ts;
    }
}

/// A job of which a branch could not be merged.
pub open spec fn after_conflict(j: job::JobView, branch: Seq<char>, ts: u64) -> job::JobView {
    if j.merge_conflicts.contains(branch) {
        j
    } else {
        job::JobView { merge_conflicts: j.merge_conflicts.push(branch), updated_at: ts, ..j }
    }
}

/// Takes note of a branch that could not be merged.
pub fn record_merge_conflict(job: &mut JobRecord, branch: &str, ts: u64)
    ensures
        final(job)@ == after_conflict(old(job)@, branch@, ts),
{
    if !list_has(&job.merge_conflicts, branch) {
        let ghost before = job.merge_conflicts@;
        let name = branch.to_owned();
        job.merge_conflicts.push(name);
        assert(text::texts(job.merge_conflicts@) == text::texts(before).push(branch@));
        job.updated_at = ts;
    }
}

/// A worker whose branch could not be merged.
pub open spec fn after_failed_merge(
    a: agent::AgentView,
    strategy: Seq<char>,
    branch: Seq<char>,
    error: Seq<char>,
    ts: u64,
) -> agent::AgentView {
    agent::AgentView {
        error: Some("merge conflict while merging worker branch"@),
        failure_report: Some(
            failure::next_report(
                a.failure_report,
                FailureClass::MergeConflict,
                "merge conflict while merging worker branch"@,
                Some(
                    "merge strategy '"@ + strategy + "' failed for branch '"@ + branch + "': "@
                        + error,
                ),
                true,
                ts,
            ),
        ),
        updated_at: ts,
        ..a
    }
}

/// Takes note of a worker whose branch could not be merged.
pub fn record_failed_merge(
    agent: &mut AgentRecord,
    strategy: &str,
    branch: &str,
    error: &str,
    ts: u64,
)
    ensures
        final(agent)@ == after_failed_merge(old(agent)@, strategy@, branch@, error@, ts),
{
    let mut details = "merge strategy '".to_owned();
    details.append(strategy);
    details.append("' failed for branch '");
    details.append(branch);
    details.append("': ");
    details.append(error);
    agent.error = Some("merge conflict while merging worker branch".to_owned());
    update_failure_report(
        &mut agent.failure_report,
        FailureClass::MergeConflict,
        "merge conflict while merging worker branch".to_owned(),
        Some(details),
        true,
        ts,
    );
    agent.updated_at = ts;
}

/// A worker whose worktree was removed.
pub open spec fn after_removal(a: agent::AgentView, was_merged: bool, ts: u64) -> agent::AgentView {
    agent::AgentView {
        worktree_path: None,
        branch_name: if was_merged {
            None
        } else {
            a.branch_name
        },
        updated_at: ts,
        ..a
    }
}

/// Takes note of a worktree that was removed.
pub fn forget_worktree(agent: &mut AgentRecord, was_merged: bool, ts: u64)
    ensures
        final(agent)@ == after_removal(old(agent)@, was_merged, ts),
{
    agent.worktree_path = None;
    if was_merged {
        agent.branch_name = None;
    }
    agent.updated_at = ts;
}

/// What a command that checks a worker's work says of a failure.
pub open spec fn validation_failure(command: Seq<char>, o: ProgramOutput) -> Seq<char> {
    let details = if text::trimmed(o.stderr@).len() > 0 {
        text::trimmed(o.stderr@)
    } else if text::trimmed(o.stdout@).len() > 0 {
        text::trimmed(o.stdout@)
    } else {
        "no stderr output"@
    };
    "command '"@ + command + "' exited "@ + text::decimal_int(reported_code(o.code))
        + ". stderr: "@ + details
}

/// What came of a command that checks a worker's work.
pub fn judge_validation_command(command: &str, output: Result<ProgramOutput, String>) -> (r: Result<
    (),
    ForemanError,
>)
    ensures
        match output {
            Ok(o) => if o.success {
                r is Ok
            } else {
                r matches Err(e) && e@ == seq![validation_failure(command@, o)]
            },
            Err(error) => r matches Err(e) && e@ == seq![
                "failed to run validation command '"@ + command@ + "'"@,
                error@,
            ],
        },
{
    match output {
        Ok(o) => {
            if o.success {
                return Ok(());
            }
            let stderr = trim(o.stderr.as_str());
            let stdout = trim(o.stdout.as_str());
            let mut message = "command '".to_owned();
            message.append(command);
            message.append("' exited ");
            message.append(code_text(o.code).as_str());
            message.append(". stderr: ");
            if !stderr.as_str().is_empty() {
                message.append(stderr.as_str());
            } else if !stdout.as_str().is_empty() {
                message.append(stdout.as_str());
            } else {
                message.append("no stderr output");
            }
            Err(ForemanError::new(message))
        },
        Err(error) => {
            let mut message = "failed to run validation command '".to_owned();
            message.append(command);
            message.append("'");
            let e = ForemanError::new(error).context(message);
            assert(e@ == seq![message@, error@]);
            Err(e)
        },
    }
}

/// A branch is listed once among those that were merged, however often that is noted, and no
/// branch that was listed is lost.
pub proof fn law_merged_branches_are_listed_once(j: job::JobView, branch: Seq<char>, ts: u64)
    requires
        j.merged_branches.no_duplicates(),
    ensures
        after_merge(j, branch, ts).merged_branches.no_duplicates(),
        after_merge(j, branch, ts).merged_branches.contains(branch),
        forall|b: Seq<char>|
            j.merged_branches.contains(b) ==> #[trigger] after_merge(
                j,
                branch,
                ts,
            ).merged_branches.contains(b),
        after_merge(after_merge(j, branch, ts), branch, ts) == after_merge(j, branch, ts),
{
    if !j.merged_branches.contains(branch) {
        let after = j.merged_branches.push(branch);
        assert(after[after.len() - 1] == branch);
        assert forall|b: Seq<char>| j.merged_branches.contains(b) implies after.contains(b) by {
            let i = choose|i: int| 0 <= i < j.merged_branches.len() && j.merged_branches[i] == b;
            assert(after[i] == b);
        }
    }
}

/// A branch is merged on top of the base branch: that is checked out first, and the last command
/// merges the branch, after the branch was put on the base where it is to be rebased.
pub proof fn law_branches_are_merged_into_the_base(
    base: Seq<char>,
    branch: Seq<char>,
    strategy: Seq<char>,
)
    ensures
        merge_commands(base, branch, strategy)[0].0 == seq!["checkout"@, base],
        strategy == "sequential"@ || strategy == "rebase"@ ==> merge_commands(
            base,
            branch,
            strategy,
        ).last().0 == seq!["merge"@, "--no-ff"@, branch],
        strategy == "sequential"@ ==> merge_commands(base, branch, strategy).len() == 2,
        strategy == "rebase"@ ==> merge_commands(base, branch, strategy).len() == 3
            && merge_commands(base, branch, strategy)[1].0 == seq!["rebase"@, base, branch],
        strategy != "sequential"@ && strategy != "rebase"@ ==> merge_commands(
            base,
            branch,
            strategy,
        ).len() == 1,
        merge_problem(strategy) is None <==> strategy == "manual"@ || strategy == "sequential"@
            || strategy == "rebase"@,
{
    reveal_strlit("sequential");
    reveal_strlit("rebase");
    assert("sequential"@.len() == 10 && "rebase"@.len() == 6);
}

/// A worktree is removed in any case, its branch only where it was merged; the worker then has no
/// worktree, and keeps its branch where it was not merged.
pub proof fn law_only_merged_branches_are_deleted(
    a: agent::AgentView,
    path: Seq<char>,
    branch: Option<Seq<char>>,
    ts: u64,
)
    ensures
        cleanup_commands(path, branch, true)[0].0 == seq!["worktree"@, "remove"@, "--force"@, path],
        cleanup_commands(path, branch, false).len() == 1,
        cleanup_commands(path, branch, false)[0] == cleanup_commands(path, branch, true)[0],
        branch is Some ==> cleanup_commands(path, branch, true).len() == 2 && cleanup_commands(
            path,
            branch,
            true,
        )[1].0 == seq!["branch"@, "-d"@, branch->0],
        branch is None ==> cleanup_commands(path, branch, true).len() == 1,
        after_removal(a, true, ts).worktree_path is None && after_removal(
            a,
            true,
            ts,
        ).branch_name is None,
        after_removal(a, false, ts).worktree_path is None && after_removal(a, false, ts).branch_name
            == a.branch_name,
        after_removal(a, false, ts).status == a.status && after_removal(a, true, ts).result
            == a.result,
{
}

/// Only the end of a worker in a job of a project concerns its worktree, and only a turn that is
/// complete lets its branch be merged, unless merging is left to others.
pub proof fn law_only_complete_work_is_merged(
    c: agent_events::ContextView,
    a: agent::AgentView,
    strategy: Seq<char>,
)
    ensures
        concerns_worktree(c) ==> c.role == AgentRole::Worker && c.project_id is Some && c.job_id is Some,
        c.role == AgentRole::Worker && c.project_id is Some && c.job_id is Some && (c.method
            == "turn/completed"@ || c.method == "turn/aborted"@) ==> concerns_worktree(c),
        c.method == "turn/started"@ && c.result_snapshot is None ==> !concerns_worktree(c),
        branch_to_merge(c, a, strategy) is Some ==> c.method == "turn/completed"@ && strategy
            != "manual"@ && branch_to_merge(c, a, strategy) == a.branch_name,
        c.method == "turn/completed"@ && strategy != "manual"@ ==> branch_to_merge(c, a, strategy)
            == a.branch_name,
{
    reveal_strlit("turn/started");
    reveal_strlit("turn/completed");
    reveal_strlit("turn/aborted");
    assert("turn/started"@.len() == 12 && "turn/started"@[5] == 's');
    assert("turn/completed"@.len() == 14);
    assert("turn/aborted"@.len() == 12 && "turn/aborted"@[5] == 'a');
}

/// A branch that cannot be merged is listed once among the conflicts of its job and no other list
/// changes; the worker tells of the conflict, and another try may help.
pub proof fn law_conflicts_are_listed(
    j: job::JobView,
    a: agent::AgentView,
    strategy: Seq<char>,
    branch: Seq<char>,
    error: Seq<char>,
    ts: u64,
)
    requires
        j.merge_conflicts.no_duplicates(),
    ensures
        after_conflict(j, branch, ts).merge_conflicts.contains(branch),
        after_conflict(j, branch, ts).merge_conflicts.no_duplicates(),
        after_conflict(j, branch, ts).merged_branches == j.merged_branches,
        after_merge(j, branch, ts).merge_conflicts == j.merge_conflicts,
        forall|i: int|
            0 <= i < j.merge_conflicts.len() ==> #[trigger] after_conflict(
                j,
                branch,
                ts,
            ).merge_conflicts[i] == j.merge_conflicts[i],
        ({
            let b = after_failed_merge(a, strategy, branch, error, ts);
            &&& b.error is Some
            &&& b.failure_report is Some && b.failure_report->0.class == FailureClass::MergeConflict
                && b.failure_report->0.retryable
            &&& b.failure_report->0.details is Some && text::ends(
                b.failure_report->0.details->0,
                error,
            )
            &&& b.status == a.status && b.result == a.result && b.branch_name == a.branch_name
        }),
{
    let after = after_conflict(j, branch, ts).merge_conflicts;
    if !j.merge_conflicts.contains(branch) {
        assert(after[after.len() - 1] == branch);
    }
    let d = "merge strategy '"@ + strategy + "' failed for branch '"@ + branch + "': "@ + error;
    let n = d.len() - error.len();
    assert(d.subrange(n as int, d.len() as int) == error);
    assert(text::occurs_at(d, error, n as int));
}

/// The branch of a worker stands under its job, and no worktree is outside the project.
pub proof fn law_branches_are_named_by_job_and_worker(
    project_path: Seq<char>,
    job_id: u128,
    worker_id: u128,
    other: u128,
)
    ensures
        text::begins(branch_of(job_id, worker_id), "foreman/"@),
        text::ends(branch_of(job_id, worker_id), ids::uuid_text(worker_id).take(8)),
        branch_of(job_id, worker_id) == branch_of(job_id, other) ==> ids::uuid_text(worker_id).take(
            8,
        ) == ids::uuid_text(other).take(8),
{
    let head = "foreman/"@;
    let b = branch_of(job_id, worker_id);
    let c = branch_of(job_id, other);
    let w = ids::uuid_text(worker_id).take(8);
    let o = ids::uuid_text(other).take(8);
    assert(b.subrange(0, head.len() as int) == head);
    assert(text::occurs_at(b, head, 0));
    let n = b.len() - w.len();
    assert(b.subrange(n as int, b.len() as int) == w);
    assert(text::occurs_at(b, w, n as int));
    if b == c {
        assert(c.subrange(n as int, c.len() as int) == o);
    }
}

/// A command that fails is told of with what it wrote to its error output, else with what it wrote
/// at all; a code that is not there counts as minus one.
pub proof fn law_failures_tell_what_was_written(command: Seq<char>, o: ProgramOutput)
    ensures
        text::trimmed(o.stderr@).len() > 0 ==> text::ends(
            validation_failure(command, o),
            text::trimmed(o.stderr@),
        ),
        text::trimmed(o.stderr@).len() == 0 && text::trimmed(o.stdout@).len() > 0 ==> text::ends(
            validation_failure(command, o),
            text::trimmed(o.stdout@),
        ),
        reported_code(None) == -1,
        o.code is Some ==> reported_code(o.code) == o.code->0,
        is_worktree(o) <==> o.success && text::trimmed(o.stdout@) == "true"@,
        base_ref_of(None) == "HEAD"@,
{
    let f = validation_failure(command, o);
    let d = if text::trimmed(o.stderr@).len() > 0 {
        text::trimmed(o.stderr@)
    } else {
        text::trimmed(o.stdout@)
    };
    if d.len() > 0 {
        let n = f.len() - d.len();
        assert(f.subrange(n as int, f.len() as int) == d);
        assert(text::occurs_at(f, d, n as int));
    }
}

/// A command that failed is told with what it was for, its code and all that it wrote, and a word
/// stands for nothing.
pub proof fn law_failed_commands_are_told(
    project_path: Seq<char>,
    args: Seq<Seq<char>>,
    action: Seq<char>,
    code: Option<i32>,
    stdout: Seq<char>,
    stderr: Seq<char>,
)
    ensures
        text::begins(command_failure(project_path, args, action, code, stdout, stderr), action),
        text::trimmed(stderr).len() > 0 ==> text::ends(
            command_failure(project_path, args, action, code, stdout, stderr),
            text::trimmed(stderr),
        ),
        text::trimmed(stderr).len() == 0 ==> text::ends(
            command_failure(project_path, args, action, code, stdout, stderr),
            "<empty>"@,
        ),
        command_line(project_path, args) == "git -C "@ + project_path + " "@ + text::joined(
            args,
            " "@,
        ),
        not_run(project_path, args, action, stderr).last() == stderr,
{
    let f = command_failure(project_path, args, action, code, stdout, stderr);
    assert(f.subrange(0, action.len() as int) == action);
    assert(text::occurs_at(f, action, 0));
    let end = shown(text::trimmed(stderr));
    let n = f.len() - end.len();
    assert(f.subrange(n as int, f.len() as int) == end);
    assert(text::occurs_at(f, end, n as int));
}

/// The worktrees of a project stand in its own directory for them, each under the worker it is of.
pub proof fn law_worktrees_stand_in_the_project(project_path: Seq<char>, worker_id: u128)
    requires
        project_path.len() > 0,
        project_path.last() != '/',
    ensures
        worktree_of(project_path, worker_id) == project_path + "/.foreman/worktrees/"@
            + ids::uuid_text(worker_id).take(8),
{
    reveal_strlit("/");
    reveal_strlit(".foreman");
    reveal_strlit("worktrees");
    reveal_strlit("/.foreman/worktrees/");
    let name = ids::uuid_text(worker_id).take(8);
    let a = project_path + "/"@ + ".foreman"@;
    let b = a + "/"@ + "worktrees"@;
    assert("/"@.len() == 1 && "/"@[0] == '/');
    assert(".foreman"@.len() == 8 && ".foreman"@[0] == '.');
    assert("worktrees"@.len() == 9 && "worktrees"@[0] == 'w');
    paths::law_paths_are_taken_from_their_base(project_path, ".foreman"@);
    assert(!paths::absolute(".foreman"@)) by {
        assert(".foreman"@.subrange(0, 1)[0] == '.');
    }
    assert(paths::below(project_path, ".foreman"@) == a);
    assert(a.last() == ".foreman"@[7]);
    assert(!paths::absolute("worktrees"@)) by {
        assert("worktrees"@.subrange(0, 1)[0] == 'w');
    }
    assert(paths::below(a, "worktrees"@) == b);
    assert(b.last() == "worktrees"@[8]);
    assert(name[0] == ids::uuid_text(worker_id)[0]);
    ids::lemma_first_is_a_digit(worker_id);
    assert(!paths::absolute(name)) by {
        if paths::absolute(name) {
            assert(name.subrange(0, 1)[0] == name[0]);
        }
    }
    assert(b + "/"@ + name == project_path + "/.foreman/worktrees/"@ + name);
}

} // verus!

//! How a job is planned and made: its workers, where they work and what they wait for.
use vstd::prelude::*;

use crate::agent;
use crate::agent::{AgentRecord, WorkerCallback};
use crate::config::ServiceConfig;
use crate::constants;
use crate::error::ForemanError;
use crate::graph;
use crate::graph::assert_dependency_graph_acyclic;
use crate::id_map::IdMap;
use crate::job;
use crate::job::JobRecord;
use crate::models::{
    clone_ids, clone_vars, CallbackOverrides, PlanProjectJobsRequest, PlanProjectJobsResponse,
    ProjectJobWorkerSpec, WorkerWorktreeSpec,
};
use crate::paths;
use crate::project::{JobDefaultsConfig, ProjectRuntimeFiles};
use crate::projects;
use crate::projects::{worker_task_prompt, ProjectRecord};
use crate::resolve;
use crate::resolve::{resolve_project_callback_spec, EnvVars};
use crate::scope;
use crate::scope::{assign_worker_names, build_overlap_matrix, count_high_risk};
use crate::text;
use crate::text::same_text;
use crate::text_map::TextMap;
use crate::turns;
use crate::turns::should_use_native_worktree;
use crate::vars;
use crate::worktree;
use crate::worktree::{
    build_worker_branch_name, build_worker_worktree_path, resolve_worker_cwd, CwdPlan,
};

verus! {

/// Whether a plan says how the workers of a job would get in each other's way.
pub open spec fn is_plan(
    plan: PlanProjectJobsResponse,
    p: projects::ProjectView,
    workers: Seq<ProjectJobWorkerSpec>,
    declared: Map<Seq<char>, Vec<String>>,
) -> bool {
    let matrix = scope::matrix_rows(
        scope::worker_names(workers),
        workers,
        declared,
        workers.len() as int,
    );
    let policy = p.config.policy.overlap_policy@;
    &&& plan.project_id == p.id
    &&& plan.overlap_policy@ == policy
    &&& scope::entry_views(plan.matrix@) == matrix
    &&& plan.high_risk_pairs == scope::high_count(matrix)
    &&& plan.blocked == (policy == "block"@ && scope::high_count(matrix) > 0)
    &&& plan.requires_approval == (policy == "require_approve"@ && scope::high_count(matrix) > 0)
}

/// Says how workers of a job would get in each other's way, given what each says it touches.
pub fn plan_workers(
    project: &ProjectRecord,
    workers: &Vec<ProjectJobWorkerSpec>,
    declared: &TextMap<Vec<String>>,
) -> (r: Result<PlanProjectJobsResponse, ForemanError>)
    ensures
        match r {
            Ok(plan) => {
                &&& workers@.len() > 0
                &&& forall|j: int|
                    0 <= j < workers@.len() ==> !scope::repeats(scope::worker_names(workers@), j)
                &&& is_plan(plan, project@, workers@, declared@)
            },
            Err(e) => if workers@.len() == 0 {
                e@ == seq!["at least one worker spec is required"@]
            } else {
                exists|j: int| #[trigger]
                    scope::first_repeat(scope::worker_names(workers@), j) && e@ == seq![
                        "duplicate worker name '"@ + scope::worker_names(workers@)[j] + "'"@,
                    ]
            },
        },
{
    if workers.len() == 0 {
        return Err(ForemanError::from_text("at least one worker spec is required"));
    }
    let names = match assign_worker_names(workers) {
        Ok(names) => names,
        Err(e) => {
            return Err(e);
        },
    };
    let matrix = build_overlap_matrix(&names, workers, declared);
    let high_risk_pairs = count_high_risk(&matrix);
    let policy = project.config.policy.overlap_policy.clone();
    let blocked = same_text(policy.as_str(), "block") && high_risk_pairs > 0;
    let requires_approval = same_text(policy.as_str(), "require_approve") && high_risk_pairs > 0;
    Ok(
        PlanProjectJobsResponse {
            project_id: project.id,
            overlap_policy: policy,
            blocked,
            requires_approval,
            high_risk_pairs,
            matrix,
        },
    )
}

/// Says how the workers of a job would get in each other's way.
pub fn plan_project_jobs(project: &ProjectRecord, request: &PlanProjectJobsRequest) -> (r: Result<
    PlanProjectJobsResponse,
    ForemanError,
>)
    ensures
        match r {
            Ok(plan) => {
                &&& request.workers@.len() > 0
                &&& forall|j: int|
                    0 <= j < request.workers@.len() ==> !scope::repeats(
                        scope::worker_names(request.workers@),
                        j,
                    )
                &&& is_plan(plan, project@, request.workers@, request.declared_scope_paths@)
            },
            Err(e) => if request.workers@.len() == 0 {
                e@ == seq!["at least one worker spec is required"@]
            } else {
                exists|j: int| #[trigger]
                    scope::first_repeat(scope::worker_names(request.workers@), j) && e@ == seq![
                        "duplicate worker name '"@ + scope::worker_names(request.workers@)[j]
                            + "'"@,
                    ]
            },
        },
{
    plan_workers(project, &request.workers, &request.declared_scope_paths)
}

/// Why a job may not be made: its workers would get too much in each other's way.
pub open spec fn overlap_problem(plan: PlanProjectJobsResponse, approve_overlap: bool) -> Option<
    Seq<char>,
> {
    if plan.blocked {
        Some(
            "job blocked by overlap policy '"@ + plan.overlap_policy@
                + "' due to high-risk overlaps"@,
        )
    } else if plan.requires_approval && !approve_overlap {
        Some("job requires overlap approval; retry with approve_overlap=true"@)
    } else {
        None
    }
}

/// Whether a job may be made.
pub fn check_overlap(plan: &PlanProjectJobsResponse, approve_overlap: bool) -> (r: Result<
    (),
    ForemanError,
>)
    ensures
        match overlap_problem(*plan, approve_overlap) {
            Some(message) => r matches Err(e) && e@ == seq![message],
            None => r is Ok,
        },
{
    if plan.blocked {
        let mut message = "job blocked by overlap policy '".to_owned();
        message.append(plan.overlap_policy.as_str());
        message.append("' due to high-risk overlaps");
        return Err(ForemanError::new(message));
    }
    if plan.requires_approval && !approve_overlap {
        return Err(
            ForemanError::from_text(
                "job requires overlap approval; retry with approve_overlap=true",
            ),
        );
    }
    Ok(())
}

/// Where a worker works.
#[derive(Debug, Clone)]
pub enum WorkerPlace {
    /// In a directory or a worktree that is asked for.
    Cwd(CwdPlan),
    /// In a worktree of its own, on a branch of its own.
    Native { worktree_path: String, branch_name: String },
}

/// Whether a place is where a worker works: in the worktree that is asked for, else in one of
/// its own where the project's jobs use them, else in the directory that is asked for.
pub open spec fn is_place(
    r: WorkerPlace,
    project_path: Seq<char>,
    cwd: Option<Seq<char>>,
    worktree_spec: Option<WorkerWorktreeSpec>,
    defaults: JobDefaultsConfig,
    worker_count: nat,
    job_id: u128,
    worker_id: u128,
) -> bool {
    match worktree_spec {
        Some(w) => if w.create {
            r matches WorkerPlace::Cwd(CwdPlan::Create { path, base_ref }) && path@ == paths::below(
                project_path,
                w.path@,
            ) && text::opt_text(base_ref) == text::opt_text(w.base_ref)
        } else {
            r matches WorkerPlace::Cwd(CwdPlan::Check { path }) && path@ == paths::below(
                project_path,
                w.path@,
            )
        },
        None => if turns::uses_worktrees(defaults, worker_count) {
            r matches WorkerPlace::Native { worktree_path, branch_name } && worktree_path@
                == worktree::worktree_of(project_path, worker_id) && branch_name@
                == worktree::branch_of(job_id, worker_id)
        } else {
            r matches WorkerPlace::Cwd(CwdPlan::Use(path)) && path@ == (match cwd {
                Some(c) => c,
                None => project_path,
            })
        },
    }
}

/// Where a worker works.
pub fn place_worker(
    project_path: &str,
    cwd: &Option<String>,
    worktree_spec: &Option<WorkerWorktreeSpec>,
    defaults: &JobDefaultsConfig,
    worker_count: usize,
    job_id: u128,
    worker_id: u128,
) -> (r: WorkerPlace)
    ensures
        is_place(
            r,
            project_path@,
            text::opt_text(*cwd),
            *worktree_spec,
            *defaults,
            worker_count as nat,
            job_id,
            worker_id,
        ),
{
    if worktree_spec.is_none() && should_use_native_worktree(defaults, worker_count) {
        return WorkerPlace::Native {
            worktree_path: build_worker_worktree_path(project_path, worker_id),
            branch_name: build_worker_branch_name(job_id, worker_id),
        };
    }
    WorkerPlace::Cwd(resolve_worker_cwd(project_path, cwd, worktree_spec))
}

/// The position of the first of the names that is a text.
pub open spec fn name_position(names: Seq<Seq<char>>, name: Seq<char>) -> Option<int>
    decreases names.len(),
{
    if names.len() == 0 {
        None
    } else if names[0] == name {
        Some(0)
    } else {
        match name_position(names.skip(1), name) {
            Some(i) => Some(i + 1),
            None => None,
        }
    }
}

proof fn lemma_name_position(names: Seq<Seq<char>>, name: Seq<char>, i: int)
    requires
        0 <= i <= names.len(),
        forall|j: int| 0 <= j < i ==> names[j] != name,
    ensures
        i == names.len() ==> name_position(names, name) is None,
        i < names.len() && names[i] == name ==> name_position(names, name) == Some(i),
    decreases i,
{
    if i > 0 {
        assert forall|j: int| 0 <= j < i - 1 implies names.skip(1)[j] != name by {
            assert(names.skip(1)[j] == names[j + 1]);
        }
        lemma_name_position(names.skip(1), name, i - 1);
    }
}

fn find_name(names: &Vec<String>, name: &str) -> (r: Option<usize>)
    ensures
        match name_position(text::texts(names@), name@) {
            Some(i) => r matches Some(k) && k == i && k < names@.len(),
            None => r is None,
        },
{
    let ghost all = text::texts(names@);
    let mut i: usize = 0;
    while i < names.len()
        invariant
            i <= names@.len(),
            all == text::texts(names@),
            forall|j: int| 0 <= j < i ==> all[j] != name@,
        decreases names@.len() - i,
    {
        if same_text(names[i].as_str(), name) {
            proof {
                lemma_name_position(all, name@, i as int);
            }
            return Some(i);
        }
        i += 1;
    }
    proof {
        lemma_name_position(all, name@, i as int);
    }
    None
}

/// What is wrong with a worker on which another depends: it is the same, or there is none of
/// its name.
pub open spec fn dependency_problem(
    worker: Seq<char>,
    dependency: Seq<char>,
    names: Seq<Seq<char>>,
) -> Option<Seq<char>> {
    if dependency == worker {
        Some("worker '"@ + worker + "' cannot depend on itself"@)
    } else if name_position(names, dependency) is None {
        Some("worker '"@ + worker + "' depends on unknown worker '"@ + dependency + "'"@)
    } else {
        None
    }
}

/// What is wrong with the first worker on which another depends and that is wrong.
pub open spec fn dependencies_problem(
    worker: Seq<char>,
    dependencies: Seq<Seq<char>>,
    names: Seq<Seq<char>>,
) -> Option<Seq<char>>
    decreases dependencies.len(),
{
    if dependencies.len() == 0 {
        None
    } else {
        crate::json::either(
            dependencies_problem(worker, dependencies.drop_last(), names),
            dependency_problem(worker, dependencies.last(), names),
        )
    }
}

proof fn lemma_dependencies_problem(
    worker: Seq<char>,
    dependencies: Seq<Seq<char>>,
    names: Seq<Seq<char>>,
    n: int,
)
    requires
        0 <= n <= dependencies.len(),
        dependencies_problem(worker, dependencies.take(n), names) is Some,
    ensures
        dependencies_problem(worker, dependencies, names) == dependencies_problem(
            worker,
            dependencies.take(n),
            names,
        ),
    decreases dependencies.len(),
{
    if n < dependencies.len() {
        assert(dependencies.drop_last().take(n) == dependencies.take(n));
        lemma_dependencies_problem(worker, dependencies.drop_last(), names, n);
    } else {
        assert(dependencies.take(n) == dependencies);
    }
}

/// The workers of names.
pub open spec fn ids_of_names(
    list: Seq<Seq<char>>,
    names: Seq<Seq<char>>,
    ids: Seq<u128>,
) -> Seq<u128> {
    list.map_values(|name: Seq<char>| ids[name_position(names, name)->0])
}

/// The workers on which a worker depends.
pub fn resolve_depends_on(
    worker_name: &str,
    depends_on: &Vec<String>,
    names: &Vec<String>,
    ids: &Vec<u128>,
) -> (r: Result<Vec<u128>, ForemanError>)
    requires
        ids@.len() == names@.len(),
    ensures
        match dependencies_problem(worker_name@, text::texts(depends_on@), text::texts(names@)) {
            Some(message) => r matches Err(e) && e@ == seq![message],
            None => r matches Ok(v) && v@ == ids_of_names(
                text::texts(depends_on@),
                text::texts(names@),
                ids@,
            ),
        },
{
    let ghost all = text::texts(depends_on@);
    let ghost known = text::texts(names@);
    let mut out: Vec<u128> = Vec::new();
    let mut i: usize = 0;
    assert(all.take(0) == Seq::<Seq<char>>::empty());
    while i < depends_on.len()
        invariant
            i <= depends_on@.len(),
            ids@.len() == names@.len(),
            all == text::texts(depends_on@),
            known == text::texts(names@),
            dependencies_problem(worker_name@, all.take(i as int), known) is None,
            out@ == ids_of_names(all.take(i as int), known, ids@),
        decreases depends_on@.len() - i,
    {
        proof {
            assert(all.take(i + 1).drop_last() == all.take(i as int));
            assert(all.take(i + 1).last() == depends_on@[i as int]@);
        }
        let name = &depends_on[i];
        if same_text(name.as_str(), worker_name) {
            let mut message = "worker '".to_owned();
            message.append(worker_name);
            message.append("' cannot depend on itself");
            proof {
                lemma_dependencies_problem(worker_name@, all, known, i + 1);
            }
            return Err(ForemanError::new(message));
        }
        match find_name(names, name.as_str()) {
            Some(k) => {
                out.push(ids[k]);
                assert(out@ == ids_of_names(all.take(i + 1), known, ids@));
            },
            None => {
                let mut message = "worker '".to_owned();
                message.append(worker_name);
                message.append("' depends on unknown worker '");
                message.append(name.as_str());
                message.append("'");
                proof {
                    lemma_dependencies_problem(worker_name@, all, known, i + 1);
                }
                return Err(ForemanError::new(message));
            },
        }
        i += 1;
    }
    assert(all.take(i as int) == all);
    Ok(out)
}

/// A worker of a job as it is to be started.
#[derive(Debug)]
pub struct JobWorkerSpecResolved {
    pub worker_id: u128,
    pub worker_name: String,
    pub prompt: String,
    pub labels: TextMap<String>,
    pub callback: WorkerCallback,
    pub model: Option<String>,
    pub model_provider: Option<String>,
    pub sandbox: Option<String>,
    pub cwd: String,
    pub worktree_path: Option<String>,
    pub branch_name: Option<String>,
    pub depends_on: Vec<u128>,
}

/// The callback of a worker of a project.
pub fn resolve_worker_callback(
    config: &ServiceConfig,
    project: &ProjectRecord,
    overrides: &CallbackOverrides,
    env: &EnvVars,
) -> (r: Result<WorkerCallback, ForemanError>)
    ensures
        match resolve::project_resolved(
            *config,
            project@.config.callbacks.worker,
            project@.config.callbacks.profiles@,
            *overrides,
            false,
            env@,
        ) {
            Ok(c) => r matches Ok(callback) && callback@ == c,
            Err(chain) => r matches Err(e) && e@ == seq!["failed to resolve worker callback"@]
                + chain,
        },
{
    match resolve_project_callback_spec(
        config,
        &project.config.callbacks.worker,
        &project.config.callbacks.profiles,
        overrides,
        false,
        env,
    ) {
        Ok(callback) => Ok(callback),
        Err(e) => Err(e.context("failed to resolve worker callback".to_owned())),
    }
}

/// A worker of a job as it is to be started, once it is known where it works.
pub fn resolve_job_worker_spec(
    spec_: &ProjectJobWorkerSpec,
    index: usize,
    names: &Vec<String>,
    ids: &Vec<u128>,
    runtime: &ProjectRuntimeFiles,
    callback: WorkerCallback,
    cwd: String,
    native: Option<(String, String)>,
) -> (r: Result<JobWorkerSpecResolved, ForemanError>)
    requires
        ids@.len() == names@.len(),
        index < names@.len(),
    ensures
        match dependencies_problem(
            names@[index as int]@,
            text::texts(spec_.depends_on@),
            text::texts(names@),
        ) {
            Some(message) => r matches Err(e) && e@ == seq![message],
            None => r matches Ok(w) && {
                &&& w.worker_id == ids@[index as int]
                &&& w.worker_name@ == names@[index as int]@
                &&& w.prompt@ == projects::task_prompt(runtime.worker_prompt@, spec_.prompt@)
                &&& w.labels.items() == spec_.labels.items()
                &&& w.callback == callback
                &&& text::opt_text(w.model) == text::opt_text(spec_.model)
                &&& text::opt_text(w.model_provider) == text::opt_text(spec_.model_provider)
                &&& text::opt_text(w.sandbox) == text::opt_text(spec_.sandbox)
                &&& w.cwd == cwd
                &&& w.depends_on@ == ids_of_names(
                    text::texts(spec_.depends_on@),
                    text::texts(names@),
                    ids@,
                )
                &&& match native {
                    Some(n) => w.worktree_path == Some(n.0) && w.branch_name == Some(n.1),
                    None => w.worktree_path is None && w.branch_name is None,
                }
            },
        },
{
    let depends_on = match resolve_depends_on(
        names[index].as_str(),
        &spec_.depends_on,
        names,
        ids,
    ) {
        Ok(v) => v,
        Err(e) => {
            return Err(e);
        },
    };
    let (worktree_path, branch_name) = match native {
        Some((path, branch)) => (Some(path), Some(branch)),
        None => (None, None),
    };
    Ok(
        JobWorkerSpecResolved {
            worker_id: ids[index],
            worker_name: names[index].clone(),
            prompt: worker_task_prompt(runtime, spec_.prompt.as_str()),
            labels: clone_vars(&spec_.labels),
            callback,
            model: spec_.model.clone(),
            model_provider: spec_.model_provider.clone(),
            sandbox: spec_.sandbox.clone(),
            cwd,
            worktree_path,
            branch_name,
            depends_on,
        },
    )
}

/// Which worker waits for which.
pub open spec fn waits(specs: Seq<JobWorkerSpecResolved>) -> Map<u128, Seq<u128>>
    decreases specs.len(),
{
    if specs.len() == 0 {
        Map::empty()
    } else {
        waits(specs.drop_last()).insert(specs.last().worker_id, specs.last().depends_on@)
    }
}

/// The labels of the workers.
pub open spec fn labels_of(specs: Seq<JobWorkerSpecResolved>) -> Map<
    u128,
    Map<Seq<char>, Seq<char>>,
>
    decreases specs.len(),
{
    if specs.len() == 0 {
        Map::empty()
    } else {
        labels_of(specs.drop_last()).insert(
            specs.last().worker_id,
            vars::values_of(specs.last().labels@),
        )
    }
}

/// The names of the workers.
pub open spec fn names_of(specs: Seq<JobWorkerSpecResolved>) -> Map<u128, Seq<char>>
    decreases specs.len(),
{
    if specs.len() == 0 {
        Map::empty()
    } else {
        names_of(specs.drop_last()).insert(specs.last().worker_id, specs.last().worker_name@)
    }
}

/// The workers.
pub open spec fn worker_ids_of(specs: Seq<JobWorkerSpecResolved>) -> Seq<u128> {
    specs.map_values(|s: JobWorkerSpecResolved| s.worker_id)
}

fn collect_waits(specs: &Vec<JobWorkerSpecResolved>) -> (r: IdMap<Vec<u128>>)
    ensures
        job::list_values(r@) == waits(specs@),
{
    let mut out: IdMap<Vec<u128>> = IdMap::new();
    let mut i: usize = 0;
    proof {
        assert(specs@.take(0) == Seq::<JobWorkerSpecResolved>::empty());
        assert(job::list_values(out@) == Map::<u128, Seq<u128>>::empty());
    }
    while i < specs.len()
        invariant
            i <= specs@.len(),
            job::list_values(out@) == waits(specs@.take(i as int)),
        decreases specs@.len() - i,
    {
        proof {
            assert(specs@.take(i + 1).drop_last() == specs@.take(i as int));
            assert(specs@.take(i + 1).last() == specs@[i as int]);
        }
        let ghost before = out@;
        let value = clone_ids(&specs[i].depends_on);
        out.insert(specs[i].worker_id, value);
        assert(job::list_values(out@) == job::list_values(before).insert(
            specs@[i as int].worker_id,
            value@,
        ));
        i += 1;
    }
    assert(specs@.take(i as int) == specs@);
    out
}

fn collect_labels(specs: &Vec<JobWorkerSpecResolved>) -> (r: IdMap<TextMap<String>>)
    ensures
        job::label_values(r@) == labels_of(specs@),
{
    let mut out: IdMap<TextMap<String>> = IdMap::new();
    let mut i: usize = 0;
    proof {
        assert(specs@.take(0) == Seq::<JobWorkerSpecResolved>::empty());
        assert(job::label_values(out@) == Map::<u128, Map<Seq<char>, Seq<char>>>::empty());
    }
    while i < specs.len()
        invariant
            i <= specs@.len(),
            job::label_values(out@) == labels_of(specs@.take(i as int)),
        decreases specs@.len() - i,
    {
        proof {
            assert(specs@.take(i + 1).drop_last() == specs@.take(i as int));
            assert(specs@.take(i + 1).last() == specs@[i as int]);
        }
        let ghost before = out@;
        let value = clone_vars(&specs[i].labels);
        out.insert(specs[i].worker_id, value);
        assert(job::label_values(out@) == job::label_values(before).insert(
            specs@[i as int].worker_id,
            vars::values_of(value@),
        ));
        i += 1;
    }
    assert(specs@.take(i as int) == specs@);
    out
}

fn collect_names(specs: &Vec<JobWorkerSpecResolved>) -> (r: IdMap<String>)
    ensures
        job::text_values(r@) == names_of(specs@),
{
    let mut out: IdMap<String> = IdMap::new();
    let mut i: usize = 0;
    proof {
        assert(specs@.take(0) == Seq::<JobWorkerSpecResolved>::empty());
        assert(job::text_values(out@) == Map::<u128, Seq<char>>::empty());
    }
    while i < specs.len()
        invariant
            i <= specs@.len(),
            job::text_values(out@) == names_of(specs@.take(i as int)),
        decreases specs@.len() - i,
    {
        proof {
            assert(specs@.take(i + 1).drop_last() == specs@.take(i as int));
            assert(specs@.take(i + 1).last() == specs@[i as int]);
        }
        let ghost before = out@;
        let value = specs[i].worker_name.clone();
        out.insert(specs[i].worker_id, value);
        assert(job::text_values(out@) == job::text_values(before).insert(
            specs@[i as int].worker_id,
            value@,
        ));
        i += 1;
    }
    assert(specs@.take(i as int) == specs@);
    out
}

fn collect_ids(specs: &Vec<JobWorkerSpecResolved>) -> (r: Vec<u128>)
    ensures
        r@ == worker_ids_of(specs@),
{
    let mut out: Vec<u128> = Vec::new();
    let mut i: usize = 0;
    while i < specs.len()
        invariant
            i <= specs@.len(),
            out@ == worker_ids_of(specs@.take(i as int)),
        decreases specs@.len() - i,
    {
        out.push(specs[i].worker_id);
        assert(out@ == worker_ids_of(specs@.take(i + 1)));
        i += 1;
    }
    assert(specs@.take(i as int) == specs@);
    out
}

/// That no worker of a job waits, directly or through others, for itself.
pub fn check_job_graph(specs: &Vec<JobWorkerSpecResolved>) -> (r: Result<(), ForemanError>)
    ensures
        r is Ok <==> !graph::has_circle(waits(specs@)),
        r matches Err(e) ==> e@ == seq!["dependency graph contains a cycle"@],
{
    let graph = collect_waits(specs);
    proof {
        graph::lemma_has_circle(graph@);
    }
    assert_dependency_graph_acyclic(&graph)
}

/// A new job.
pub open spec fn fresh_job(
    id: u128,
    project_id: u128,
    specs: Seq<JobWorkerSpecResolved>,
    base_branch: Seq<char>,
    merge_strategy: Seq<char>,
    ts: u64,
) -> job::JobView {
    job::JobView {
        id,
        project_id: Some(project_id),
        status: constants::JOB_STATUS_RUNNING@,
        worker_ids: worker_ids_of(specs),
        worker_labels: labels_of(specs),
        merged_branches: Seq::empty(),
        merge_conflicts: Seq::empty(),
        worker_names: names_of(specs),
        dependency_graph: waits(specs),
        blocked_reasons: Map::empty(),
        base_branch,
        merge_strategy,
        created_at: ts,
        completed_at: None,
        updated_at: ts,
    }
}

/// A new job.
pub fn create_job(
    id: u128,
    project_id: u128,
    specs: &Vec<JobWorkerSpecResolved>,
    base_branch: String,
    merge_strategy: &String,
    ts: u64,
) -> (r: JobRecord)
    ensures
        r@ == fresh_job(id, project_id, specs@, base_branch@, merge_strategy@, ts),
{
    let r = JobRecord {
        id,
        project_id: Some(project_id),
        status: constants::JOB_STATUS_RUNNING.to_owned(),
        worker_ids: collect_ids(specs),
        worker_labels: collect_labels(specs),
        merged_branches: Vec::new(),
        merge_conflicts: Vec::new(),
        worker_names: collect_names(specs),
        dependency_graph: collect_waits(specs),
        blocked_reasons: IdMap::new(),
        base_branch,
        merge_strategy: merge_strategy.clone(),
        created_at: ts,
        completed_at: None,
        updated_at: ts,
    };
    proof {
        assert(text::texts(r.merged_branches@) == Seq::<Seq<char>>::empty());
        assert(text::texts(r.merge_conflicts@) == Seq::<Seq<char>>::empty());
        assert(job::text_values(r.blocked_reasons@) == Map::<u128, Seq<char>>::empty());
    }
    r
}

/// A worker of a job before it starts.
pub open spec fn prepared(a: agent::AgentView, w: JobWorkerSpecResolved, ts: u64) -> agent::AgentView {
    let path = crate::json::either(text::opt_text(w.worktree_path), a.worktree_path);
    let branch = crate::json::either(text::opt_text(w.branch_name), a.branch_name);
    agent::AgentView {
        prompt: Some(w.prompt@),
        worktree_path: path,
        branch_name: branch,
        checkpoint: agent::CheckpointView {
            worktree_path: crate::json::either(
                text::opt_text(w.worktree_path),
                a.checkpoint.worktree_path,
            ),
            branch_name: crate::json::either(
                text::opt_text(w.branch_name),
                a.checkpoint.branch_name,
            ),
            ..a.checkpoint
        },
        updated_at: ts,
        ..a
    }
}

/// Prepares a worker of a job: it knows its task and where it works, and waits for its turn.
pub fn prepare_job_worker(agent: &mut AgentRecord, worker: &JobWorkerSpecResolved, ts: u64)
    ensures
        final(agent)@ == prepared(old(agent)@, *worker, ts),
{
    agent.prompt = Some(worker.prompt.clone());
    if let Some(path) = &worker.worktree_path {
        agent.worktree_path = Some(path.clone());
        agent.checkpoint.worktree_path = Some(path.clone());
    }
    if let Some(branch) = &worker.branch_name {
        agent.branch_name = Some(branch.clone());
        agent.checkpoint.branch_name = Some(branch.clone());
    }
    agent.updated_at = ts;
}

/// A job is not made where its workers would get too much in each other's way: not at all where
/// the project blocks that, and only with approval where it asks for one.
pub proof fn law_overlap_policy_is_kept(plan: PlanProjectJobsResponse)
    ensures
        plan.blocked ==> overlap_problem(plan, true) is Some && overlap_problem(plan, false) is Some,
        !plan.blocked && plan.requires_approval ==> overlap_problem(plan, false) is Some
            && overlap_problem(plan, true) is None,
        !plan.blocked && !plan.requires_approval ==> overlap_problem(plan, false) is None,
{
}

/// What a plan says follows its policy: overlaps of high risk block the job or ask for approval
/// only where the policy says so, and nothing else does.
pub proof fn law_plans_follow_the_policy(
    plan: PlanProjectJobsResponse,
    p: projects::ProjectView,
    workers: Seq<ProjectJobWorkerSpec>,
    declared: Map<Seq<char>, Vec<String>>,
)
    requires
        is_plan(plan, p, workers, declared),
    ensures
        plan.project_id == p.id,
        plan.high_risk_pairs == 0 ==> !plan.blocked && !plan.requires_approval,
        p.config.policy.overlap_policy@ == "warn"@ ==> !plan.blocked && !plan.requires_approval,
        p.config.policy.overlap_policy@ == "block"@ ==> !plan.requires_approval && (plan.blocked
            <==> plan.high_risk_pairs > 0),
        p.config.policy.overlap_policy@ == "require_approve"@ ==> !plan.blocked
            && (plan.requires_approval <==> plan.high_risk_pairs > 0),
{
    reveal_strlit("warn");
    reveal_strlit("block");
    reveal_strlit("require_approve");
    assert("warn"@.len() == 4 && "block"@.len() == 5 && "require_approve"@.len() == 15);
}

/// A worker works where it is told to: in the worktree it asks for, in one of its own where jobs
/// have such, else in the directory that it names or that of the project.
pub proof fn law_workers_work_where_they_are_told(
    r: WorkerPlace,
    project_path: Seq<char>,
    cwd: Option<Seq<char>>,
    worktree_spec: Option<WorkerWorktreeSpec>,
    defaults: JobDefaultsConfig,
    worker_count: nat,
    job_id: u128,
    worker_id: u128,
)
    requires
        is_place(
            r,
            project_path,
            cwd,
            worktree_spec,
            defaults,
            worker_count,
            job_id,
            worker_id,
        ),
    ensures
        worktree_spec is None && !turns::uses_worktrees(defaults, worker_count) && cwd is Some
            ==> r is Cwd && r->Cwd_0 is Use && (r->Cwd_0->Use_0)@ == cwd->0,
        worktree_spec is None && !turns::uses_worktrees(defaults, worker_count) && cwd is None
            ==> r is Cwd && r->Cwd_0 is Use && (r->Cwd_0->Use_0)@ == project_path,
        worktree_spec is None && turns::uses_worktrees(defaults, worker_count) ==> r is Native,
        worktree_spec is Some && worktree_spec->0.create ==> r is Cwd && r->Cwd_0 is Create,
        worktree_spec is Some && !worktree_spec->0.create ==> r is Cwd && r->Cwd_0 is Check,
{
}

/// A name stands where it is found, and is found exactly where it is in the list.
pub proof fn law_names_are_found_where_they_stand(names: Seq<Seq<char>>, name: Seq<char>)
    ensures
        name_position(names, name) is Some <==> names.contains(name),
        name_position(names, name) matches Some(i) ==> 0 <= i < names.len() && names[i] == name,
    decreases names.len(),
{
    if names.len() > 0 {
        let rest = names.skip(1);
        law_names_are_found_where_they_stand(rest, name);
        if names[0] != name {
            if names.contains(name) {
                let i = choose|i: int| 0 <= i < names.len() && names[i] == name;
                assert(rest[i - 1] == name);
            }
            if rest.contains(name) {
                let i = choose|i: int| 0 <= i < rest.len() && rest[i] == name;
                assert(names[i + 1] == name);
            }
        }
    }
}

/// The dependencies of a worker are in order exactly where each of them is another worker of the
/// job, and then each stands for the identifier of the worker it names.
pub proof fn law_dependencies_are_other_workers(
    worker: Seq<char>,
    dependencies: Seq<Seq<char>>,
    names: Seq<Seq<char>>,
    ids: Seq<u128>,
)
    requires
        names.len() == ids.len(),
    ensures
        dependencies_problem(worker, dependencies, names) is None <==> (forall|i: int|
            0 <= i < dependencies.len() ==> #[trigger] dependencies[i] != worker && names.contains(
                dependencies[i],
            )),
        dependencies_problem(worker, dependencies, names) is None ==> {
            let found = ids_of_names(dependencies, names, ids);
            &&& found.len() == dependencies.len()
            &&& forall|i: int|
                0 <= i < found.len() ==> exists|k: int|
                    0 <= k < names.len() && names[k] == dependencies[i] && ids[k]
                        == #[trigger] found[i]
        },
    decreases dependencies.len(),
{
    if dependencies.len() > 0 {
        let rest = dependencies.drop_last();
        law_dependencies_are_other_workers(worker, rest, names, ids);
        law_names_are_found_where_they_stand(names, dependencies.last());
        assert(dependencies.last() == dependencies[dependencies.len() - 1]);
        assert forall|i: int| 0 <= i < rest.len() implies rest[i] == #[trigger] dependencies[i] by {}
        if dependencies_problem(worker, dependencies, names) is None {
            assert(dependencies_problem(worker, rest, names) is None);
            assert forall|i: int|
                0 <= i < dependencies.len() implies #[trigger] dependencies[i] != worker
                && names.contains(dependencies[i]) by {
                if i < rest.len() {
                    assert(rest[i] == dependencies[i]);
                }
            }
        } else if forall|i: int|
            0 <= i < dependencies.len() ==> #[trigger] dependencies[i] != worker && names.contains(
                dependencies[i],
            ) {
            assert forall|i: int| 0 <= i < rest.len() implies #[trigger] rest[i] != worker
                && names.contains(rest[i]) by {
                assert(rest[i] == dependencies[i]);
            }
            assert(names.contains(dependencies[dependencies.len() - 1]));
        }
        if dependencies_problem(worker, dependencies, names) is None {
            let found = ids_of_names(dependencies, names, ids);
            assert forall|i: int| 0 <= i < found.len() implies exists|k: int|
                0 <= k < names.len() && names[k] == dependencies[i] && ids[k] == #[trigger] found[i] by {
                law_names_are_found_where_they_stand(names, dependencies[i]);
                assert(names.contains(dependencies[i]));
                let k = name_position(names, dependencies[i])->0;
                assert(names[k] == dependencies[i]);
                assert(ids[k] == found[i]);
            }
        }
    }
}

proof fn lemma_maps_of_specs(specs: Seq<JobWorkerSpecResolved>, i: int)
    requires
        0 <= i < specs.len(),
        forall|a: int, b: int|
            0 <= a < b < specs.len() ==> (#[trigger] specs[a]).worker_id != (
            #[trigger] specs[b]).worker_id,
    ensures
        waits(specs).dom().contains(specs[i].worker_id),
        waits(specs)[specs[i].worker_id] == specs[i].depends_on@,
        names_of(specs).dom().contains(specs[i].worker_id),
        names_of(specs)[specs[i].worker_id] == specs[i].worker_name@,
        labels_of(specs).dom().contains(specs[i].worker_id),
        labels_of(specs)[specs[i].worker_id] == vars::values_of(specs[i].labels@),
    decreases specs.len(),
{
    let rest = specs.drop_last();
    assert(specs.last() == specs[specs.len() - 1]);
    if i < rest.len() {
        assert(rest[i] == specs[i]);
        assert forall|a: int, b: int| 0 <= a < b < rest.len() implies (
        #[trigger] rest[a]).worker_id != (#[trigger] rest[b]).worker_id by {
            assert(rest[a] == specs[a] && rest[b] == specs[b]);
        }
        lemma_maps_of_specs(rest, i);
        assert(specs[i].worker_id != specs[specs.len() - 1].worker_id);
    }
}

/// A new job runs with all its workers, in order, each with its own name, labels and dependencies,
/// and nothing of it is merged, blocked or complete.
pub proof fn law_new_jobs_hold_their_workers(
    id: u128,
    project_id: u128,
    specs: Seq<JobWorkerSpecResolved>,
    base_branch: Seq<char>,
    merge_strategy: Seq<char>,
    ts: u64,
)
    requires
        forall|a: int, b: int|
            0 <= a < b < specs.len() ==> (#[trigger] specs[a]).worker_id != (
            #[trigger] specs[b]).worker_id,
    ensures
        ({
            let j = fresh_job(id, project_id, specs, base_branch, merge_strategy, ts);
            &&& j.id == id && j.project_id == Some(project_id)
            &&& j.status == "running"@
            &&& j.completed_at is None && j.created_at == ts && j.updated_at == ts
            &&& j.merged_branches.len() == 0 && j.merge_conflicts.len() == 0
            &&& j.base_branch == base_branch && j.merge_strategy == merge_strategy
            &&& j.worker_ids.len() == specs.len()
            &&& forall|k: u128| !(#[trigger] j.blocked_reasons.dom().contains(k))
            &&& forall|i: int|
                0 <= i < specs.len() ==> {
                    let w = #[trigger] specs[i];
                    &&& j.worker_ids[i] == w.worker_id
                    &&& j.worker_names[w.worker_id] == w.worker_name@
                    &&& j.worker_labels[w.worker_id] == vars::values_of(w.labels@)
                    &&& j.dependency_graph[w.worker_id] == w.depends_on@
                }
        }),
{
    let j = fresh_job(id, project_id, specs, base_branch, merge_strategy, ts);
    assert forall|i: int| 0 <= i < specs.len() implies ({
        let w = #[trigger] specs[i];
        &&& j.worker_ids[i] == w.worker_id
        &&& j.worker_names[w.worker_id] == w.worker_name@
        &&& j.worker_labels[w.worker_id] == vars::values_of(w.labels@)
        &&& j.dependency_graph[w.worker_id] == w.depends_on@
    }) by {
        lemma_maps_of_specs(specs, i);
    }
}

/// A worker of a job has the job's prompt for it, and the worktree and the branch it was given,
/// which its checkpoint knows too.
pub proof fn law_job_workers_are_prepared(a: agent::AgentView, w: JobWorkerSpecResolved, ts: u64)
    ensures
        ({
            let b = prepared(a, w, ts);
            &&& b.prompt == Some(w.prompt@)
            &&& w.worktree_path is Some ==> b.worktree_path == Some(w.worktree_path->0@)
                && b.checkpoint.worktree_path == b.worktree_path
            &&& w.branch_name is Some ==> b.branch_name == Some(w.branch_name->0@)
                && b.checkpoint.branch_name == b.branch_name
            &&& w.worktree_path is None ==> b.worktree_path == a.worktree_path
            &&& w.branch_name is None ==> b.branch_name == a.branch_name
            &&& b.status == a.status && b.id == a.id && b.active_turn_id == a.active_turn_id
                && b.result == a.result && b.callback == a.callback
        }),
{
}

} // verus!

//! The project configuration: its types, its defaults and what makes it valid.
use vstd::prelude::*;

use crate::config;
use crate::config::{clone_filters, clone_profiles, CallbackFilter, CallbackProfile};
use crate::constants;
use crate::error::ForemanError;
use crate::json;
use crate::manifest;
use crate::manifest::{has_root_key, parse_manifest, validate_unknown_keys, ProjectLintReport};
use crate::models::{clone_opt_texts, clone_opt_vars, clone_texts, clone_vars};
use crate::paths;
use crate::paths::join_path;
use crate::text;
use crate::text::{same_text, trims_to_empty};
use crate::text_map::TextMap;

verus! {

/// The configuration of a project.
#[derive(Debug)]
pub struct ProjectConfig {
    pub name: Option<String>,
    pub prompts: ProjectPrompts,
    pub callbacks: ProjectCallbacks,
    pub policy: ProjectPolicy,
    pub jobs: ProjectJobsConfig,
    pub validation: Option<ValidationConfig>,
}

/// The files that hold a project's prompts.
#[derive(Debug)]
pub struct ProjectPrompts {
    pub foreman_file: String,
    pub worker_file: String,
    pub runbook_file: String,
    pub handoff_file: Option<String>,
}

/// The callbacks of a project.
#[derive(Debug)]
pub struct ProjectCallbacks {
    pub env: TextMap<String>,
    pub profiles: TextMap<CallbackProfile>,
    pub filters: Vec<CallbackFilter>,
    pub worker: CallbackSpec,
    pub foreman: CallbackSpec,
    pub bubble_up: CallbackSpec,
    pub lifecycle: ProjectLifecycleCallbacks,
}

/// Where a callback goes and what it carries.
#[derive(Debug)]
pub struct CallbackSpec {
    pub callback_profile: Option<String>,
    pub callback_prompt_prefix: Option<String>,
    pub callback_args: Option<Vec<String>>,
    pub callback_events: Option<Vec<String>>,
    pub events: Option<Vec<String>>,
    pub callback_vars: Option<TextMap<String>>,
    pub socket: Option<String>,
    pub timeout_ms: Option<u64>,
}

/// The callbacks for what happens to a project.
#[derive(Debug)]
pub struct ProjectLifecycleCallbacks {
    pub start: CallbackSpec,
    pub compact: CallbackSpec,
    pub stop: CallbackSpec,
    pub worker_completed: CallbackSpec,
    pub worker_aborted: CallbackSpec,
}

/// What a project passes up, when it compacts and how it treats overlapping work.
#[derive(Debug)]
pub struct ProjectPolicy {
    pub bubble_up_events: Option<Vec<String>>,
    pub compact_after_turns: Option<u64>,
    pub overlap_policy: String,
}

/// How a project runs jobs.
#[derive(Debug)]
pub struct ProjectJobsConfig {
    pub defaults: JobDefaultsConfig,
}

/// How a project runs a job that says nothing else.
#[derive(Debug)]
pub struct JobDefaultsConfig {
    pub min_turns: Option<u32>,
    pub strategy: Option<String>,
    pub worktree_mode: String,
    pub merge_strategy: String,
    pub base_branch: Option<String>,
}

/// How a worker's work is checked.
#[derive(Debug)]
pub struct ValidationConfig {
    pub on_turn: Vec<String>,
    pub on_complete: Vec<String>,
    pub fail_action: String,
    pub max_retries: u32,
}

/// The texts of a project's files.
#[derive(Debug, Clone)]
pub struct ProjectRuntimeFiles {
    pub path: String,
    pub foreman_prompt: String,
    pub worker_prompt: String,
    pub runbook: String,
    pub handoff: Option<String>,
}

/// What came of reading a file: its text, or the text of the error.
pub type FileText = Result<String, String>;

/// What came of reading a project's files. The handoff is none where there is no such file.
#[derive(Debug)]
pub struct RuntimeFileTexts {
    pub foreman: FileText,
    pub worker: FileText,
    pub runbook: FileText,
    pub handoff: Option<FileText>,
}

pub fn default_foreman_prompt_file() -> (r: String)
    ensures
        r@ == constants::DEFAULT_FOREMAN_PROMPT_FILE@,
{
    constants::DEFAULT_FOREMAN_PROMPT_FILE.to_owned()
}

pub fn default_worker_prompt_file() -> (r: String)
    ensures
        r@ == constants::DEFAULT_WORKER_PROMPT_FILE@,
{
    constants::DEFAULT_WORKER_PROMPT_FILE.to_owned()
}

pub fn default_runbook_file() -> (r: String)
    ensures
        r@ == constants::DEFAULT_RUNBOOK_FILE@,
{
    constants::DEFAULT_RUNBOOK_FILE.to_owned()
}

pub fn default_handoff_file() -> (r: String)
    ensures
        r@ == constants::DEFAULT_HANDOFF_FILE@,
{
    constants::DEFAULT_HANDOFF_FILE.to_owned()
}

pub fn default_validation_fail_action() -> (r: String)
    ensures
        r@ == "retry"@,
{
    "retry".to_owned()
}

pub fn default_validation_max_retries() -> (r: u32)
    ensures
        r == 2,
{
    2
}

pub fn default_worktree_mode() -> (r: String)
    ensures
        r@ == "never"@,
{
    "never".to_owned()
}

pub fn default_merge_strategy() -> (r: String)
    ensures
        r@ == "manual"@,
{
    "manual".to_owned()
}

impl Default for ProjectPrompts {
    fn default() -> (r: Self)
        ensures
            r.foreman_file@ == constants::DEFAULT_FOREMAN_PROMPT_FILE@,
            r.worker_file@ == constants::DEFAULT_WORKER_PROMPT_FILE@,
            r.runbook_file@ == constants::DEFAULT_RUNBOOK_FILE@,
            text::opt_text(r.handoff_file) == Some(constants::DEFAULT_HANDOFF_FILE@),
    {
        ProjectPrompts {
            foreman_file: default_foreman_prompt_file(),
            worker_file: default_worker_prompt_file(),
            runbook_file: default_runbook_file(),
            handoff_file: Some(default_handoff_file()),
        }
    }
}

/// Whether a callback is left open in every respect.
pub open spec fn spec_is_empty(s: CallbackSpec) -> bool {
    &&& s.callback_profile is None
    &&& s.callback_prompt_prefix is None
    &&& s.callback_args is None
    &&& s.callback_events is None
    &&& s.events is None
    &&& s.callback_vars is None
    &&& s.socket is None
    &&& s.timeout_ms is None
}

impl Default for CallbackSpec {
    fn default() -> (r: Self)
        ensures
            spec_is_empty(r),
    {
        CallbackSpec {
            callback_profile: None,
            callback_prompt_prefix: None,
            callback_args: None,
            callback_events: None,
            events: None,
            callback_vars: None,
            socket: None,
            timeout_ms: None,
        }
    }
}

impl Default for ProjectLifecycleCallbacks {
    fn default() -> (r: Self)
        ensures
            spec_is_empty(r.start),
            spec_is_empty(r.compact),
            spec_is_empty(r.stop),
            spec_is_empty(r.worker_completed),
            spec_is_empty(r.worker_aborted),
    {
        ProjectLifecycleCallbacks {
            start: CallbackSpec::default(),
            compact: CallbackSpec::default(),
            stop: CallbackSpec::default(),
            worker_completed: CallbackSpec::default(),
            worker_aborted: CallbackSpec::default(),
        }
    }
}

impl Default for ProjectCallbacks {
    fn default() -> (r: Self)
        ensures
            r.env.items().len() == 0,
            r.profiles.items().len() == 0,
            r.filters@.len() == 0,
            spec_is_empty(r.worker),
            spec_is_empty(r.foreman),
            spec_is_empty(r.bubble_up),
            spec_is_empty(r.lifecycle.start),
            spec_is_empty(r.lifecycle.compact),
            spec_is_empty(r.lifecycle.stop),
            spec_is_empty(r.lifecycle.worker_completed),
            spec_is_empty(r.lifecycle.worker_aborted),
    {
        ProjectCallbacks {
            env: TextMap::new(),
            profiles: TextMap::new(),
            filters: Vec::new(),
            worker: CallbackSpec::default(),
            foreman: CallbackSpec::default(),
            bubble_up: CallbackSpec::default(),
            lifecycle: ProjectLifecycleCallbacks::default(),
        }
    }
}

impl Default for ProjectPolicy {
    fn default() -> (r: Self)
        ensures
            text::opt_texts(r.bubble_up_events) == Some(
                seq![constants::EVENT_METHOD_TURN_COMPLETED@, constants::EVENT_METHOD_TURN_ABORTED@],
            ),
            r.compact_after_turns is None,
            r.overlap_policy@ == "warn"@,
    {
        let mut events: Vec<String> = Vec::new();
        events.push(constants::EVENT_METHOD_TURN_COMPLETED.to_owned());
        events.push(constants::EVENT_METHOD_TURN_ABORTED.to_owned());
        assert(text::texts(events@) == seq![
            constants::EVENT_METHOD_TURN_COMPLETED@,
            constants::EVENT_METHOD_TURN_ABORTED@,
        ]);
        ProjectPolicy {
            bubble_up_events: Some(events),
            compact_after_turns: None,
            overlap_policy: "warn".to_owned(),
        }
    }
}

impl Default for JobDefaultsConfig {
    fn default() -> (r: Self)
        ensures
            r.min_turns is None,
            r.strategy is None,
            r.worktree_mode@ == "never"@,
            r.merge_strategy@ == "manual"@,
            r.base_branch is None,
    {
        JobDefaultsConfig {
            min_turns: None,
            strategy: None,
            worktree_mode: default_worktree_mode(),
            merge_strategy: default_merge_strategy(),
            base_branch: None,
        }
    }
}

impl Default for ValidationConfig {
    fn default() -> (r: Self)
        ensures
            r.on_turn@.len() == 0,
            r.on_complete@.len() == 0,
            r.fail_action@ == "retry"@,
            r.max_retries == 2,
    {
        ValidationConfig {
            on_turn: Vec::new(),
            on_complete: Vec::new(),
            fail_action: default_validation_fail_action(),
            max_retries: default_validation_max_retries(),
        }
    }
}

/// Whether a configuration is that of a project that says nothing.
pub open spec fn is_default(c: ProjectConfig) -> bool {
    &&& c.name is None
    &&& c.prompts.foreman_file@ == constants::DEFAULT_FOREMAN_PROMPT_FILE@
    &&& c.prompts.worker_file@ == constants::DEFAULT_WORKER_PROMPT_FILE@
    &&& c.prompts.runbook_file@ == constants::DEFAULT_RUNBOOK_FILE@
    &&& text::opt_text(c.prompts.handoff_file) == Some(constants::DEFAULT_HANDOFF_FILE@)
    &&& c.callbacks.env.items().len() == 0
    &&& c.callbacks.profiles.items().len() == 0
    &&& c.callbacks.filters@.len() == 0
    &&& spec_is_empty(c.callbacks.worker)
    &&& spec_is_empty(c.callbacks.foreman)
    &&& spec_is_empty(c.callbacks.bubble_up)
    &&& spec_is_empty(c.callbacks.lifecycle.start)
    &&& spec_is_empty(c.callbacks.lifecycle.compact)
    &&& spec_is_empty(c.callbacks.lifecycle.stop)
    &&& spec_is_empty(c.callbacks.lifecycle.worker_completed)
    &&& spec_is_empty(c.callbacks.lifecycle.worker_aborted)
    &&& text::opt_texts(c.policy.bubble_up_events) == Some(
        seq![constants::EVENT_METHOD_TURN_COMPLETED@, constants::EVENT_METHOD_TURN_ABORTED@],
    )
    &&& c.policy.compact_after_turns is None
    &&& c.policy.overlap_policy@ == "warn"@
    &&& c.jobs.defaults.min_turns is None
    &&& c.jobs.defaults.strategy is None
    &&& c.jobs.defaults.worktree_mode@ == "never"@
    &&& c.jobs.defaults.merge_strategy@ == "manual"@
    &&& c.jobs.defaults.base_branch is None
    &&& c.validation is None
}

impl Default for ProjectConfig {
    fn default() -> (r: Self)
        ensures
            is_default(r),
            project_problem(r) is None,
    {
        let r = ProjectConfig {
            name: None,
            prompts: ProjectPrompts::default(),
            callbacks: ProjectCallbacks::default(),
            policy: ProjectPolicy::default(),
            jobs: ProjectJobsConfig { defaults: JobDefaultsConfig::default() },
            validation: None,
        };
        proof {
            reveal_strlit("FOREMAN.md");
            reveal_strlit("WORKER.md");
            reveal_strlit("RUNBOOK.md");
            assert(!text::is_white(constants::DEFAULT_FOREMAN_PROMPT_FILE@[0]));
            assert(!text::is_white(constants::DEFAULT_WORKER_PROMPT_FILE@[0]));
            assert(!text::is_white(constants::DEFAULT_RUNBOOK_FILE@[0]));
        }
        r
    }
}

/// A message that begins with the code of an invalid project.
pub open spec fn invalid(rest: Seq<char>) -> Seq<char> {
    constants::ERROR_CODE_CFG_PROJECT_VALIDATION@ + rest
}

/// The first prompt file that has no name.
pub open spec fn prompts_problem(p: ProjectPrompts) -> Option<Seq<char>> {
    if text::is_blank(p.foreman_file@) {
        Some(invalid(" prompts.foreman_file cannot be empty"@))
    } else if text::is_blank(p.worker_file@) {
        Some(invalid(" prompts.worker_file cannot be empty"@))
    } else if text::is_blank(p.runbook_file@) {
        Some(invalid(" prompts.runbook_file cannot be empty"@))
    } else {
        None
    }
}

/// The first setting of the jobs that is none of its values.
pub open spec fn defaults_problem(d: JobDefaultsConfig) -> Option<Seq<char>> {
    if d.strategy matches Some(s) && s@ != "single"@ && s@ != "explore-plan-execute"@ {
        Some("jobs.defaults.strategy must be 'single' or 'explore-plan-execute'"@)
    } else if d.worktree_mode@ != "auto"@ && d.worktree_mode@ != "always"@ && d.worktree_mode@
        != "never"@ {
        Some("jobs.defaults.worktree_mode must be 'auto', 'always', or 'never'"@)
    } else if d.merge_strategy@ != "sequential"@ && d.merge_strategy@ != "rebase"@
        && d.merge_strategy@ != "manual"@ {
        Some("jobs.defaults.merge_strategy must be 'sequential', 'rebase', or 'manual'"@)
    } else {
        None
    }
}

/// What is wrong with the checks of a worker's work.
pub open spec fn validation_problem(v: ValidationConfig) -> Option<Seq<char>> {
    if v.fail_action@ != "retry"@ && v.fail_action@ != "abort"@ && v.fail_action@ != "warn"@ {
        Some("validation.fail_action must be 'retry', 'abort', or 'warn'"@)
    } else {
        None
    }
}

/// A message and its cause, where there is one.
pub open spec fn caused(message: Seq<char>, cause: Option<Seq<char>>) -> Option<Seq<Seq<char>>> {
    match cause {
        Some(c) => Some(seq![invalid(message), c]),
        None => None,
    }
}

/// The first thing that is wrong with a project, with its cause.
pub open spec fn project_problem(c: ProjectConfig) -> Option<Seq<Seq<char>>> {
    json::either(
        caused(" invalid project prompt configuration"@, prompts_problem(c.prompts)),
        json::either(
            caused(" invalid project jobs configuration"@, defaults_problem(c.jobs.defaults)),
            match c.validation {
                Some(v) => caused(
                    " invalid project validation configuration"@,
                    validation_problem(v),
                ),
                None => None,
            },
        ),
    )
}

/// A message that begins with the code of an invalid project.
fn invalid_message(rest: &str) -> (r: String)
    ensures
        r@ == invalid(rest@),
{
    let mut message = constants::ERROR_CODE_CFG_PROJECT_VALIDATION.to_owned();
    message.append(rest);
    message
}

/// Whether a result is the error with the message of a problem, and success without one.
pub open spec fn reports(r: Result<(), ForemanError>, problem: Option<Seq<char>>) -> bool {
    match problem {
        Some(p) => r matches Err(e) && e@ == seq![p],
        None => r is Ok,
    }
}

impl ProjectPrompts {
    pub fn validate(&self) -> (r: Result<(), ForemanError>)
        ensures
            reports(r, prompts_problem(*self)),
    {
        if trims_to_empty(self.foreman_file.as_str()) {
            return Err(ForemanError::new(invalid_message(" prompts.foreman_file cannot be empty")));
        }
        if trims_to_empty(self.worker_file.as_str()) {
            return Err(ForemanError::new(invalid_message(" prompts.worker_file cannot be empty")));
        }
        if trims_to_empty(self.runbook_file.as_str()) {
            return Err(ForemanError::new(invalid_message(" prompts.runbook_file cannot be empty")));
        }
        Ok(())
    }
}

impl ProjectJobsConfig {
    pub fn validate(&self) -> (r: Result<(), ForemanError>)
        ensures
            reports(r, defaults_problem(self.defaults)),
    {
        self.defaults.validate()
    }
}

impl JobDefaultsConfig {
    pub fn validate(&self) -> (r: Result<(), ForemanError>)
        ensures
            reports(r, defaults_problem(*self)),
    {
        if let Some(strategy) = &self.strategy {
            if !same_text(strategy.as_str(), "single") && !same_text(
                strategy.as_str(),
                "explore-plan-execute",
            ) {
                return Err(
                    ForemanError::from_text(
                        "jobs.defaults.strategy must be 'single' or 'explore-plan-execute'",
                    ),
                );
            }
        }
        let mode = self.worktree_mode.as_str();
        if !same_text(mode, "auto") && !same_text(mode, "always") && !same_text(mode, "never") {
            return Err(
                ForemanError::from_text(
                    "jobs.defaults.worktree_mode must be 'auto', 'always', or 'never'",
                ),
            );
        }
        let merge = self.merge_strategy.as_str();
        if !same_text(merge, "sequential") && !same_text(merge, "rebase") && !same_text(
            merge,
            "manual",
        ) {
            return Err(
                ForemanError::from_text(
                    "jobs.defaults.merge_strategy must be 'sequential', 'rebase', or 'manual'",
                ),
            );
        }
        Ok(())
    }
}

impl ValidationConfig {
    pub fn validate(&self) -> (r: Result<(), ForemanError>)
        ensures
            reports(r, validation_problem(*self)),
    {
        let action = self.fail_action.as_str();
        if !same_text(action, "retry") && !same_text(action, "abort") && !same_text(action, "warn") {
            return Err(
                ForemanError::from_text("validation.fail_action must be 'retry', 'abort', or 'warn'"),
            );
        }
        Ok(())
    }
}

/// Gives an error its context.
fn with_context(r: Result<(), ForemanError>, message: &str) -> (out: Result<(), ForemanError>)
    ensures
        match r {
            Ok(_) => out is Ok,
            Err(e) => out matches Err(o) && o@ == seq![invalid(message@)] + e@,
        },
{
    match r {
        Ok(_) => Ok(()),
        Err(e) => Err(e.context(invalid_message(message))),
    }
}

/// The text of a file that must not be blank.
pub open spec fn required_text(path: Seq<char>, read: FileText) -> Result<
    Seq<char>,
    Seq<Seq<char>>,
> {
    match read {
        Err(cause) => Err(seq!["failed to read "@ + path, cause@]),
        Ok(data) => if text::is_blank(data@) {
            Err(seq![path + " is empty"@])
        } else {
            Ok(data@)
        },
    }
}

/// The text of a file that could be read, and else why it could not.
fn read_text(path: &str, read: FileText) -> (r: Result<String, ForemanError>)
    ensures
        match read {
            Ok(data) => r == Ok::<String, ForemanError>(data),
            Err(cause) => r matches Err(e) && e@ == seq!["failed to read "@ + path@, cause@],
        },
{
    match read {
        Ok(data) => Ok(data),
        Err(cause) => {
            let mut message = "failed to read ".to_owned();
            message.append(path);
            let e = ForemanError::new(cause).context(message);
            assert(e@ == seq![message@, cause@]);
            Err(e)
        },
    }
}

/// The text of a file that must not be blank.
pub fn read_text_required(path: &str, read: FileText) -> (r: Result<String, ForemanError>)
    ensures
        match required_text(path@, read) {
            Ok(data) => r == Ok::<String, ForemanError>(read->Ok_0),
            Err(chain) => r matches Err(e) && e@ == chain,
        },
{
    match read_text(path, read) {
        Err(e) => Err(e),
        Ok(data) => {
            if trims_to_empty(data.as_str()) {
                let mut message = path.to_owned();
                message.append(" is empty");
                Err(ForemanError::new(message))
            } else {
                Ok(data)
            }
        },
    }
}

/// The first of a project's files that cannot be used, with the reason.
pub open spec fn runtime_problem(
    c: ProjectConfig,
    path: Seq<char>,
    files: RuntimeFileTexts,
) -> Option<Seq<Seq<char>>> {
    let foreman = required_text(paths::below(path, c.prompts.foreman_file@), files.foreman);
    let worker = required_text(paths::below(path, c.prompts.worker_file@), files.worker);
    let runbook = required_text(paths::below(path, c.prompts.runbook_file@), files.runbook);
    if foreman is Err {
        Some(foreman->Err_0)
    } else if worker is Err {
        Some(worker->Err_0)
    } else if runbook is Err {
        Some(runbook->Err_0)
    } else {
        match (c.prompts.handoff_file, files.handoff) {
            (Some(name), Some(Err(cause))) => Some(
                seq!["failed to read "@ + paths::below(path, name@), cause@],
            ),
            _ => None,
        }
    }
}

/// The error for a manifest that is no TOML.
pub open spec fn parse_chain(cause: Seq<char>) -> Seq<Seq<char>> {
    seq![constants::ERROR_CODE_CFG_PROJECT_PARSE@ + " invalid project config format"@, cause]
}

/// The error for a manifest that is no TOML.
pub fn parse_error(cause: String) -> (r: ForemanError)
    ensures
        r@ == parse_chain(cause@),
{
    let mut message = constants::ERROR_CODE_CFG_PROJECT_PARSE.to_owned();
    message.append(" invalid project config format");
    let e = ForemanError::new(cause).context(message);
    assert(e@ == parse_chain(cause@));
    e
}

/// The message for a manifest with the old table of hooks.
pub open spec fn hooks_message() -> Seq<char> {
    constants::ERROR_CODE_CFG_PROJECT_PARSE@
        + " project config uses unsupported [hooks]; replace with [callbacks.lifecycle]"@
}

/// An issue on one line.
pub open spec fn issue_line(issue: manifest::IssueView) -> Seq<char> {
    issue.0 + " "@ + issue.1 + ": "@ + issue.2
}

/// Why a manifest is not taken: its hooks, or else the first key that it may not hold.
pub open spec fn manifest_problem(m: manifest::ManifestView) -> Option<Seq<char>> {
    if manifest::child(Some(m), "hooks"@) is Some {
        Some(hooks_message())
    } else if manifest::manifest_issues(m).len() > 0 {
        Some(issue_line(manifest::manifest_issues(m)[0]))
    } else {
        None
    }
}

/// Why a manifest is not taken.
pub fn check_manifest(m: &manifest::Manifest) -> (r: Result<(), ForemanError>)
    ensures
        reports(r, manifest_problem(m@)),
{
    if has_root_key(m, "hooks") {
        let mut message = constants::ERROR_CODE_CFG_PROJECT_PARSE.to_owned();
        message.append(
            " project config uses unsupported [hooks]; replace with [callbacks.lifecycle]",
        );
        return Err(ForemanError::new(message));
    }
    let mut report = ProjectLintReport { issues: Vec::new(), fixed: false };
    assert(manifest::issue_views(report.issues@) == Seq::<manifest::IssueView>::empty());
    validate_unknown_keys(m, &mut report);
    assert(manifest::issue_views(report.issues@) == manifest::manifest_issues(m@));
    if report.issues.len() > 0 {
        let issue = &report.issues[0];
        assert(manifest::issue_views(report.issues@)[0] == manifest::issue_view(*issue));
        let mut message = issue.code.to_owned();
        message.append(" ");
        message.append(issue.path.as_str());
        message.append(": ");
        message.append(issue.message.as_str());
        return Err(ForemanError::new(message));
    }
    Ok(())
}

impl ProjectConfig {
    /// Why the text of a project configuration is not taken, before its values are read.
    pub fn check_text(raw: &str) -> (r: Result<(), ForemanError>)
        ensures
            match manifest::manifest_of(raw@) {
                Err(cause) => r matches Err(e) && e@ == parse_chain(cause),
                Ok(m) => reports(r, manifest_problem(m)),
            },
    {
        match parse_manifest(raw) {
            Err(cause) => Err(parse_error(cause)),
            Ok(m) => check_manifest(&m),
        }
    }

    /// The configuration of a project: the default where there is no file, else the one that was
    /// read in its text, if the text is taken.
    pub fn load(raw: Option<&str>, read: Result<ProjectConfig, String>) -> (r: Result<
        ProjectConfig,
        ForemanError,
    >)
        ensures
            match raw {
                None => r matches Ok(c) && is_default(c) && project_problem(c) is None,
                Some(raw) => match manifest::manifest_of(raw@) {
                    Err(cause) => r matches Err(e) && e@ == parse_chain(cause),
                    Ok(m) => match manifest_problem(m) {
                        Some(p) => r matches Err(e) && e@ == seq![p],
                        None => match read {
                            Ok(c) => r == Ok::<ProjectConfig, ForemanError>(c),
                            Err(cause) => r matches Err(e) && e@ == parse_chain(cause@),
                        },
                    },
                },
            },
    {
        match raw {
            None => Ok(ProjectConfig::default()),
            Some(raw) => {
                match ProjectConfig::check_text(raw) {
                    Err(e) => Err(e),
                    Ok(_) => match read {
                        Ok(c) => Ok(c),
                        Err(cause) => Err(parse_error(cause)),
                    },
                }
            },
        }
    }

    /// What is wrong with the configuration.
    pub fn validate(&self) -> (r: Result<(), ForemanError>)
        ensures
            match project_problem(*self) {
                Some(chain) => r matches Err(e) && e@ == chain,
                None => r is Ok,
            },
    {
        let prompts = with_context(self.prompts.validate(), " invalid project prompt configuration");
        if prompts.is_err() {
            return prompts;
        }
        let jobs = with_context(self.jobs.validate(), " invalid project jobs configuration");
        if jobs.is_err() {
            return jobs;
        }
        match &self.validation {
            Some(v) => with_context(v.validate(), " invalid project validation configuration"),
            None => Ok(()),
        }
    }

    /// The texts of the project's files, given what came of reading them.
    pub fn load_runtime_files(&self, path: &str, files: RuntimeFileTexts) -> (r: Result<
        ProjectRuntimeFiles,
        ForemanError,
    >)
        ensures
            match runtime_problem(*self, path@, files) {
                Some(chain) => r matches Err(e) && e@ == chain,
                None => r matches Ok(f) && f.path@ == path@ && f.foreman_prompt
                    == files.foreman->Ok_0 && f.worker_prompt == files.worker->Ok_0 && f.runbook
                    == files.runbook->Ok_0 && f.handoff == (match (
                    self.prompts.handoff_file,
                    files.handoff,
                ) {
                    (Some(_), Some(Ok(data))) => Some(data),
                    _ => None,
                }),
            },
    {
        let foreman_path = join_path(path, self.prompts.foreman_file.as_str());
        let worker_path = join_path(path, self.prompts.worker_file.as_str());
        let runbook_path = join_path(path, self.prompts.runbook_file.as_str());
        let foreman_prompt = read_text_required(foreman_path.as_str(), files.foreman)?;
        let worker_prompt = read_text_required(worker_path.as_str(), files.worker)?;
        let runbook = read_text_required(runbook_path.as_str(), files.runbook)?;
        let handoff: Option<String> = match (&self.prompts.handoff_file, files.handoff) {
            (Some(name), Some(read)) => {
                let handoff_path = join_path(path, name.as_str());
                Some(read_text(handoff_path.as_str(), read)?)
            },
            _ => None,
        };
        Ok(
            ProjectRuntimeFiles {
                path: path.to_owned(),
                foreman_prompt,
                worker_prompt,
                runbook,
                handoff,
            },
        )
    }
}

/// Whether two values say the same.
pub open spec fn same_spec(a: CallbackSpec, b: CallbackSpec) -> bool {
    &&& text::opt_text(a.callback_profile) == text::opt_text(b.callback_profile)
    &&& text::opt_text(a.callback_prompt_prefix) == text::opt_text(b.callback_prompt_prefix)
    &&& text::opt_texts(a.callback_args) == text::opt_texts(b.callback_args)
    &&& text::opt_texts(a.callback_events) == text::opt_texts(b.callback_events)
    &&& text::opt_texts(a.events) == text::opt_texts(b.events)
    &&& a.callback_vars is Some == b.callback_vars is Some
    &&& a.callback_vars is Some ==> a.callback_vars->0.items() == b.callback_vars->0.items()
    &&& text::opt_text(a.socket) == text::opt_text(b.socket)
    &&& a.timeout_ms == b.timeout_ms
}

impl Clone for CallbackSpec {
    fn clone(&self) -> (r: Self)
        ensures
            same_spec(*self, r),
    {
        CallbackSpec {
            callback_profile: self.callback_profile.clone(),
            callback_prompt_prefix: self.callback_prompt_prefix.clone(),
            callback_args: clone_opt_texts(&self.callback_args),
            callback_events: clone_opt_texts(&self.callback_events),
            events: clone_opt_texts(&self.events),
            callback_vars: clone_opt_vars(&self.callback_vars),
            socket: self.socket.clone(),
            timeout_ms: self.timeout_ms,
        }
    }
}

/// Whether two values say the same.
pub open spec fn same_lifecycle(a: ProjectLifecycleCallbacks, b: ProjectLifecycleCallbacks) -> bool {
    &&& same_spec(a.start, b.start)
    &&& same_spec(a.compact, b.compact)
    &&& same_spec(a.stop, b.stop)
    &&& same_spec(a.worker_completed, b.worker_completed)
    &&& same_spec(a.worker_aborted, b.worker_aborted)
}

impl Clone for ProjectLifecycleCallbacks {
    fn clone(&self) -> (r: Self)
        ensures
            same_lifecycle(*self, r),
    {
        ProjectLifecycleCallbacks {
            start: self.start.clone(),
            compact: self.compact.clone(),
            stop: self.stop.clone(),
            worker_completed: self.worker_completed.clone(),
            worker_aborted: self.worker_aborted.clone(),
        }
    }
}

/// Whether two values say the same.
pub open spec fn same_prompts(a: ProjectPrompts, b: ProjectPrompts) -> bool {
    &&& a.foreman_file@ == b.foreman_file@
    &&& a.worker_file@ == b.worker_file@
    &&& a.runbook_file@ == b.runbook_file@
    &&& text::opt_text(a.handoff_file) == text::opt_text(b.handoff_file)
}

impl Clone for ProjectPrompts {
    fn clone(&self) -> (r: Self)
        ensures
            same_prompts(*self, r),
    {
        ProjectPrompts {
            foreman_file: self.foreman_file.clone(),
            worker_file: self.worker_file.clone(),
            runbook_file: self.runbook_file.clone(),
            handoff_file: self.handoff_file.clone(),
        }
    }
}

/// Whether two values say the same.
pub open spec fn same_policy(a: ProjectPolicy, b: ProjectPolicy) -> bool {
    &&& text::opt_texts(a.bubble_up_events) == text::opt_texts(b.bubble_up_events)
    &&& a.compact_after_turns == b.compact_after_turns
    &&& a.overlap_policy@ == b.overlap_policy@
}

impl Clone for ProjectPolicy {
    fn clone(&self) -> (r: Self)
        ensures
            same_policy(*self, r),
    {
        ProjectPolicy {
            bubble_up_events: clone_opt_texts(&self.bubble_up_events),
            compact_after_turns: self.compact_after_turns,
            overlap_policy: self.overlap_policy.clone(),
        }
    }
}

/// Whether two values say the same.
pub open spec fn same_job_defaults(a: JobDefaultsConfig, b: JobDefaultsConfig) -> bool {
    &&& a.min_turns == b.min_turns
    &&& text::opt_text(a.strategy) == text::opt_text(b.strategy)
    &&& a.worktree_mode@ == b.worktree_mode@
    &&& a.merge_strategy@ == b.merge_strategy@
    &&& text::opt_text(a.base_branch) == text::opt_text(b.base_branch)
}

impl Clone for JobDefaultsConfig {
    fn clone(&self) -> (r: Self)
        ensures
            same_job_defaults(*self, r),
    {
        JobDefaultsConfig {
            min_turns: self.min_turns,
            strategy: self.strategy.clone(),
            worktree_mode: self.worktree_mode.clone(),
            merge_strategy: self.merge_strategy.clone(),
            base_branch: self.base_branch.clone(),
        }
    }
}

/// Whether two values say the same.
pub open spec fn same_validation(a: ValidationConfig, b: ValidationConfig) -> bool {
    &&& text::texts(a.on_turn@) == text::texts(b.on_turn@)
    &&& text::texts(a.on_complete@) == text::texts(b.on_complete@)
    &&& a.fail_action@ == b.fail_action@
    &&& a.max_retries == b.max_retries
}

impl Clone for ValidationConfig {
    fn clone(&self) -> (r: Self)
        ensures
            same_validation(*self, r),
    {
        ValidationConfig {
            on_turn: clone_texts(&self.on_turn),
            on_complete: clone_texts(&self.on_complete),
            fail_action: self.fail_action.clone(),
            max_retries: self.max_retries,
        }
    }
}

/// Whether the callbacks of two projects say the same.
pub open spec fn same_callbacks(a: ProjectCallbacks, b: ProjectCallbacks) -> bool {
    &&& a.env.items() == b.env.items()
    &&& config::same_profiles(a.profiles, b.profiles)
    &&& config::same_filters(a.filters@, b.filters@)
    &&& same_spec(a.worker, b.worker)
    &&& same_spec(a.foreman, b.foreman)
    &&& same_spec(a.bubble_up, b.bubble_up)
    &&& same_lifecycle(a.lifecycle, b.lifecycle)
}

impl Clone for ProjectCallbacks {
    fn clone(&self) -> (r: Self)
        ensures
            same_callbacks(*self, r),
    {
        ProjectCallbacks {
            env: clone_vars(&self.env),
            profiles: clone_profiles(&self.profiles),
            filters: clone_filters(&self.filters),
            worker: self.worker.clone(),
            foreman: self.foreman.clone(),
            bubble_up: self.bubble_up.clone(),
            lifecycle: self.lifecycle.clone(),
        }
    }
}

/// Whether two optional checks say the same.
pub open spec fn same_opt_validation(a: Option<ValidationConfig>, b: Option<ValidationConfig>) -> bool {
    match (a, b) {
        (Some(x), Some(y)) => same_validation(x, y),
        (None, None) => true,
        _ => false,
    }
}

/// Whether the configurations of two projects say the same.
pub open spec fn same_config(a: ProjectConfig, b: ProjectConfig) -> bool {
    &&& text::opt_text(a.name) == text::opt_text(b.name)
    &&& same_prompts(a.prompts, b.prompts)
    &&& same_callbacks(a.callbacks, b.callbacks)
    &&& same_policy(a.policy, b.policy)
    &&& same_job_defaults(a.jobs.defaults, b.jobs.defaults)
    &&& same_opt_validation(a.validation, b.validation)
}

impl Clone for ProjectConfig {
    fn clone(&self) -> (r: Self)
        ensures
            same_config(*self, r),
    {
        ProjectConfig {
            name: self.name.clone(),
            prompts: self.prompts.clone(),
            callbacks: self.callbacks.clone(),
            policy: self.policy.clone(),
            jobs: ProjectJobsConfig { defaults: self.jobs.defaults.clone() },
            validation: match &self.validation {
                Some(v) => Some(v.clone()),
                None => None,
            },
        }
    }
}

/// What is not set for a project has these values.
pub proof fn law_projects_start_from_these_values(c: ProjectConfig)
    requires
        is_default(c),
    ensures
        c.prompts.foreman_file@ == "FOREMAN.md"@,
        c.prompts.worker_file@ == "WORKER.md"@,
        c.prompts.runbook_file@ == "RUNBOOK.md"@,
        text::opt_text(c.prompts.handoff_file) == Some("HANDOFF.md"@),
        text::opt_texts(c.policy.bubble_up_events) == Some(
            seq!["turn/completed"@, "turn/aborted"@],
        ),
        c.policy.compact_after_turns is None,
        c.policy.overlap_policy@ == "warn"@,
        c.jobs.defaults.worktree_mode@ == "never"@,
        c.jobs.defaults.merge_strategy@ == "manual"@,
        c.jobs.defaults.min_turns is None && c.jobs.defaults.strategy is None,
        c.validation is None,
        c.callbacks.worker.callback_profile is None,
        project_problem(c) is None,
{
    reveal_strlit("FOREMAN.md");
    reveal_strlit("WORKER.md");
    reveal_strlit("RUNBOOK.md");
    assert("FOREMAN.md"@[0] == 'F' && "WORKER.md"@[0] == 'W' && "RUNBOOK.md"@[0] == 'R');
    text::lemma_letter_is_not_blank("FOREMAN.md"@);
    text::lemma_letter_is_not_blank("WORKER.md"@);
    text::lemma_letter_is_not_blank("RUNBOOK.md"@);
}

/// A project is in order exactly where its prompts are named, its jobs follow a way of working that
/// there is, and its checks have a consequence that there is.
pub proof fn law_projects_in_order(c: ProjectConfig)
    ensures
        project_problem(c) is None <==> {
            let d = c.jobs.defaults;
            &&& !text::is_blank(c.prompts.foreman_file@)
            &&& !text::is_blank(c.prompts.worker_file@)
            &&& !text::is_blank(c.prompts.runbook_file@)
            &&& d.strategy is Some ==> d.strategy->0@ == "single"@ || d.strategy->0@
                == "explore-plan-execute"@
            &&& d.worktree_mode@ == "auto"@ || d.worktree_mode@ == "always"@ || d.worktree_mode@
                == "never"@
            &&& d.merge_strategy@ == "sequential"@ || d.merge_strategy@ == "rebase"@
                || d.merge_strategy@ == "manual"@
            &&& c.validation is Some ==> c.validation->0.fail_action@ == "retry"@
                || c.validation->0.fail_action@ == "abort"@ || c.validation->0.fail_action@
                == "warn"@
        },
{
}

/// The files of a project are read where each that is needed is there and says something; a file
/// for handoffs may be missing, but not unreadable.
pub proof fn law_files_are_needed(c: ProjectConfig, path: Seq<char>, files: RuntimeFileTexts)
    ensures
        runtime_problem(c, path, files) is None <==> {
            &&& files.foreman is Ok && !text::is_blank(files.foreman->Ok_0@)
            &&& files.worker is Ok && !text::is_blank(files.worker->Ok_0@)
            &&& files.runbook is Ok && !text::is_blank(files.runbook->Ok_0@)
            &&& c.prompts.handoff_file is Some && files.handoff is Some ==> files.handoff->0 is Ok
        },
{
}

/// A file is what was read of it, unless that is blank or it could not be read.
pub proof fn law_files_say_something(path: Seq<char>, read: FileText)
    ensures
        read is Ok && !text::is_blank(read->Ok_0@) ==> required_text(path, read) == Ok::<
            Seq<char>,
            Seq<Seq<char>>,
        >(read->Ok_0@),
        read is Err || text::is_blank(read->Ok_0@) ==> required_text(path, read) is Err,
        read is Err ==> required_text(path, read)->Err_0.last() == read->Err_0@,
{
}

/// A manifest is refused exactly where it has the old form or an issue, and the first issue is
/// told.
pub proof fn law_manifests_without_issues_are_taken(m: manifest::ManifestView)
    ensures
        manifest_problem(m) is None <==> manifest::child(Some(m), "hooks"@) is None
            && manifest::manifest_issues(m).len() == 0,
        manifest::child(Some(m), "hooks"@) is None && manifest::manifest_issues(m).len() > 0
            ==> manifest_problem(m) == Some(
            manifest::manifest_issues(m)[0].0 + " "@ + manifest::manifest_issues(m)[0].1 + ": "@
                + manifest::manifest_issues(m)[0].2,
        ),
{
}

/// A configuration is the same as itself, and two that are the same name the same files, ways of
/// working and policies.
pub proof fn law_same_configurations_say_the_same(a: ProjectConfig, b: ProjectConfig)
    ensures
        same_config(a, a),
        same_config(a, b) ==> a.prompts.foreman_file@ == b.prompts.foreman_file@
            && a.jobs.defaults.min_turns == b.jobs.defaults.min_turns
            && a.jobs.defaults.merge_strategy@ == b.jobs.defaults.merge_strategy@
            && a.policy.overlap_policy@ == b.policy.overlap_policy@ && (a.validation is Some
            <==> b.validation is Some) && text::opt_text(a.callbacks.worker.callback_profile)
            == text::opt_text(b.callbacks.worker.callback_profile),
        same_config(a, b) && a.validation is Some ==> a.validation->0.max_retries
            == b.validation->0.max_retries && a.validation->0.fail_action@
            == b.validation->0.fail_action@,
        text::begins(hooks_message(), "CFG_PROJECT_PARSE"@),
{
    assert forall|i: int| 0 <= i < a.callbacks.profiles.items().len() implies (
    #[trigger] a.callbacks.profiles.items()[i]).0 == a.callbacks.profiles.items()[i].0
        && config::same_profile(
        a.callbacks.profiles.items()[i].1,
        a.callbacks.profiles.items()[i].1,
    ) by {}
    assert forall|i: int| 0 <= i < a.callbacks.filters@.len() implies config::same_filter(
        #[trigger] a.callbacks.filters@[i],
        a.callbacks.filters@[i],
    ) by {}
    let m = hooks_message();
    let head = "CFG_PROJECT_PARSE"@;
    assert(m.subrange(0, head.len() as int) == head);
    assert(text::occurs_at(m, head, 0));
}

} // verus!

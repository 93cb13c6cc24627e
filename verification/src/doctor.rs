//! What is in order and what is not around a project, told to a person.
use vstd::prelude::*;

use crate::config::{CallbackProfile, ServiceConfig};
use crate::config;
use crate::constants;
use crate::error::ForemanError;
use crate::lint;
use crate::lint::coded_error;
use crate::paths;
use crate::paths::join_path;
use crate::project;
use crate::project::ProjectConfig;
use crate::text;
use crate::text_map::TextMap;
use crate::text_search::{decimal_text, list_has};

verus! {

/// How a check came out.
#[derive(Debug, Clone, Copy, PartialEq, Eq, Structural)]
pub enum CheckStatus {
    Pass,
    Warn,
    Fail,
}

/// Something that was checked.
#[derive(Debug, Clone)]
pub struct DoctorCheck {
    pub id: &'static str,
    pub status: CheckStatus,
    pub code: Option<&'static str>,
    pub message: String,
}

/// What was checked around a project.
#[derive(Debug, Clone)]
pub struct DoctorReport {
    pub project: String,
    pub checks: Vec<DoctorCheck>,
}

/// A check by its name, how it came out, its code and its message.
pub type CheckView = (Seq<char>, CheckStatus, Option<Seq<char>>, Seq<char>);

/// What a check says.
pub open spec fn check_view(c: DoctorCheck) -> CheckView {
    (c.id@, c.status, crate::governor::opt_str(c.code), c.message@)
}

/// What checks say.
pub open spec fn check_views(v: Seq<DoctorCheck>) -> Seq<CheckView> {
    v.map_values(|c: DoctorCheck| check_view(c))
}

/// A check that something passed.
pub open spec fn passed(id: Seq<char>, message: Seq<char>) -> CheckView {
    (id, CheckStatus::Pass, None, message)
}

/// A check that something failed.
pub open spec fn failed(id: Seq<char>, code: Seq<char>, message: Seq<char>) -> CheckView {
    (id, CheckStatus::Fail, Some(code), message)
}

/// A check that something is doubtful.
pub open spec fn doubtful(id: Seq<char>, code: Seq<char>, message: Seq<char>) -> CheckView {
    (id, CheckStatus::Warn, Some(code), message)
}

/// What came of asking the app server for its version.
#[derive(Debug, Clone)]
pub enum BinaryProbe {
    Succeeded,
    /// How it ended, in words.
    Ended(String),
    /// Why it did not start.
    NotStarted(String),
}

/// What came of writing in the project's runtime directory.
#[derive(Debug, Clone)]
pub enum RuntimeDirProbe {
    Writable,
    NotWritable(String),
    NotCreated(String),
}

/// What was found around a project.
#[derive(Debug)]
pub struct Findings {
    pub binary: BinaryProbe,
    /// The project's configuration, or why there is none to use.
    pub project: Result<ProjectConfig, ForemanError>,
    /// Why the project's files cannot be used.
    pub runtime_problem: Option<String>,
    pub runtime_dir: RuntimeDirProbe,
    pub has_git: bool,
    /// The programs of callbacks that are there.
    pub programs: Vec<String>,
}

/// What the app server's version says.
pub open spec fn binary_check(binary: Seq<char>, probe: BinaryProbe) -> CheckView {
    match probe {
        BinaryProbe::Succeeded => passed(
            "codex_binary"@,
            "'"@ + binary + " --version' succeeded"@,
        ),
        BinaryProbe::Ended(status) => failed(
            "codex_binary"@,
            constants::ERROR_CODE_CFG_RUNTIME_IO@,
            "'"@ + binary + " --version' failed with exit code "@ + status@,
        ),
        BinaryProbe::NotStarted(error) => failed(
            "codex_binary"@,
            constants::ERROR_CODE_CFG_RUNTIME_IO@,
            "failed to execute '"@ + binary + " --version': "@ + error@,
        ),
    }
}

/// What the service's configuration says.
pub open spec fn service_checks(c: ServiceConfig) -> Seq<CheckView> {
    match config::config_problem(c) {
        Some(problem) => seq![
            failed("service_config"@, constants::ERROR_CODE_CFG_SERVICE_INVALID@, problem),
        ],
        None => seq![passed("service_config"@, "service config validated"@)]
            + config::config_warnings(c).map_values(
            |w: Seq<char>|
                doubtful(
                    "service_config_warning"@,
                    constants::ERROR_CODE_CFG_SERVICE_INVALID@,
                    w,
                ),
        ),
    }
}

/// The first message of an error.
pub open spec fn first_message(chain: Seq<Seq<char>>) -> Seq<char> {
    if chain.len() > 0 {
        chain[0]
    } else {
        Seq::empty()
    }
}

/// What the program of a project's callback says.
pub open spec fn project_program(
    name: Seq<char>,
    profile: CallbackProfile,
    programs: Seq<Seq<char>>,
) -> Seq<CheckView> {
    match profile {
        CallbackProfile::Command(c) => if programs.contains(c.program@) {
            Seq::empty()
        } else {
            seq![
                failed(
                    "project_callback_command"@,
                    constants::ERROR_CODE_CB_COMMAND_INVALID@,
                    "project callback profile '"@ + name + "' command '"@ + c.program@
                        + "' does not exist"@,
                ),
            ]
        },
        _ => Seq::empty(),
    }
}

/// What the program of a callback of the service says.
pub open spec fn service_program(
    name: Seq<char>,
    profile: CallbackProfile,
    programs: Seq<Seq<char>>,
) -> Seq<CheckView> {
    match profile {
        CallbackProfile::Command(c) => if programs.contains(c.program@) {
            seq![
                passed(
                    "service_callback_command"@,
                    "service callback profile '"@ + name + "' command exists: "@ + c.program@,
                ),
            ]
        } else {
            seq![
                failed(
                    "service_callback_command"@,
                    constants::ERROR_CODE_CB_COMMAND_INVALID@,
                    "service callback profile '"@ + name + "' command '"@ + c.program@
                        + "' does not exist"@,
                ),
            ]
        },
        _ => Seq::empty(),
    }
}

/// What the programs of callbacks say, of a project or of the service.
pub open spec fn program_checks(
    of_project: bool,
    items: Seq<(Seq<char>, CallbackProfile)>,
    programs: Seq<Seq<char>>,
) -> Seq<CheckView>
    decreases items.len(),
{
    if items.len() == 0 {
        Seq::empty()
    } else {
        let last = items.last();
        program_checks(of_project, items.drop_last(), programs) + (if of_project {
            project_program(last.0, last.1, programs)
        } else {
            service_program(last.0, last.1, programs)
        })
    }
}

/// What the project's files say.
pub open spec fn files_check(problem: Option<Seq<char>>) -> CheckView {
    match problem {
        None => passed("project_prompts"@, "all prompt files are readable and non-empty"@),
        Some(message) => failed(
            "project_prompts"@,
            constants::ERROR_CODE_CFG_RUNTIME_IO@,
            message,
        ),
    }
}

/// What the project's configuration, its files and its callbacks say.
pub open spec fn project_checks(f: Findings) -> Seq<CheckView> {
    match f.project {
        Err(e) => seq![
            failed(
                "project_config"@,
                constants::ERROR_CODE_CFG_PROJECT_VALIDATION@,
                first_message(e@),
            ),
        ],
        Ok(c) => match project::project_problem(c) {
            Some(chain) => seq![
                failed(
                    "project_config"@,
                    constants::ERROR_CODE_CFG_PROJECT_VALIDATION@,
                    first_message(chain),
                ),
            ],
            None => seq![
                passed("project_config"@, "project config validated"@),
                files_check(text::opt_text(f.runtime_problem)),
            ] + program_checks(true, c.callbacks.profiles.items(), text::texts(f.programs@)),
        },
    }
}

/// What the runtime directory says.
pub open spec fn runtime_dir_check(dir: Seq<char>, probe: RuntimeDirProbe) -> CheckView {
    match probe {
        RuntimeDirProbe::Writable => passed(
            "runtime_dir"@,
            "runtime directory is writable: "@ + dir,
        ),
        RuntimeDirProbe::NotWritable(error) => failed(
            "runtime_dir"@,
            constants::ERROR_CODE_CFG_RUNTIME_IO@,
            "runtime directory is not writable '"@ + dir + "': "@ + error@,
        ),
        RuntimeDirProbe::NotCreated(error) => failed(
            "runtime_dir"@,
            constants::ERROR_CODE_CFG_RUNTIME_IO@,
            "failed to create runtime directory '"@ + dir + "': "@ + error@,
        ),
    }
}

/// What the repository says.
pub open spec fn git_check(dir: Seq<char>, present: bool) -> CheckView {
    if present {
        passed("git_access"@, "git metadata present: "@ + dir)
    } else {
        doubtful(
            "git_access"@,
            constants::ERROR_CODE_CFG_RUNTIME_IO@,
            "no .git directory found (worktree operations may fail)"@,
        )
    }
}

/// All that is checked around a project, in order.
pub open spec fn all_checks(
    binary: Seq<char>,
    service: ServiceConfig,
    root: Seq<char>,
    f: Findings,
) -> Seq<CheckView> {
    seq![binary_check(binary, f.binary)] + service_checks(service) + project_checks(f) + seq![
        runtime_dir_check(paths::below(root, constants::FOREMAN_RUNTIME_DIR@), f.runtime_dir),
        git_check(paths::below(root, ".git"@), f.has_git),
    ] + program_checks(
        false,
        service.callbacks.profiles.items(),
        text::texts(f.programs@),
    )
}

/// How many checks came out in a way.
pub open spec fn count_of(v: Seq<CheckView>, status: CheckStatus) -> nat
    decreases v.len(),
{
    if v.len() == 0 {
        0
    } else if v.last().1 == status {
        count_of(v.drop_last(), status) + 1
    } else {
        count_of(v.drop_last(), status)
    }
}

fn push_check(
    checks: &mut Vec<DoctorCheck>,
    id: &'static str,
    status: CheckStatus,
    code: Option<&'static str>,
    message: String,
)
    ensures
        check_views(final(checks)@) == check_views(old(checks)@).push(
            (id@, status, crate::governor::opt_str(code), message@),
        ),
{
    let ghost before = check_views(checks@);
    checks.push(DoctorCheck { id, status, code, message });
    assert(check_views(checks@) == before.push(
        (id@, status, crate::governor::opt_str(code), message@),
    ));
}

fn push_binary_check(checks: &mut Vec<DoctorCheck>, binary: &str, probe: &BinaryProbe)
    ensures
        check_views(final(checks)@) == check_views(old(checks)@).push(
            binary_check(binary@, *probe),
        ),
{
    match probe {
        BinaryProbe::Succeeded => {
            let mut message = "'".to_owned();
            message.append(binary);
            message.append(" --version' succeeded");
            push_check(checks, "codex_binary", CheckStatus::Pass, None, message);
        },
        BinaryProbe::Ended(status) => {
            let mut message = "'".to_owned();
            message.append(binary);
            message.append(" --version' failed with exit code ");
            message.append(status.as_str());
            push_check(
                checks,
                "codex_binary",
                CheckStatus::Fail,
                Some(constants::ERROR_CODE_CFG_RUNTIME_IO),
                message,
            );
        },
        BinaryProbe::NotStarted(error) => {
            let mut message = "failed to execute '".to_owned();
            message.append(binary);
            message.append(" --version': ");
            message.append(error.as_str());
            push_check(
                checks,
                "codex_binary",
                CheckStatus::Fail,
                Some(constants::ERROR_CODE_CFG_RUNTIME_IO),
                message,
            );
        },
    }
}

fn push_service_checks(checks: &mut Vec<DoctorCheck>, service: &ServiceConfig)
    ensures
        check_views(final(checks)@) == check_views(old(checks)@) + service_checks(*service),
{
    let ghost before = check_views(checks@);
    match service.validate() {
        Ok(warnings) => {
            push_check(
                checks,
                "service_config",
                CheckStatus::Pass,
                None,
                "service config validated".to_owned(),
            );
            let ghost base = check_views(checks@);
            let ghost told = config::config_warnings(*service).map_values(
                |w: Seq<char>|
                    doubtful(
                        "service_config_warning"@,
                        constants::ERROR_CODE_CFG_SERVICE_INVALID@,
                        w,
                    ),
            );
            let mut i: usize = 0;
            assert(base + told.take(0) == base);
            while i < warnings.len()
                invariant
                    i <= warnings@.len(),
                    text::texts(warnings@) == config::config_warnings(*service),
                    told == config::config_warnings(*service).map_values(
                        |w: Seq<char>|
                            doubtful(
                                "service_config_warning"@,
                                constants::ERROR_CODE_CFG_SERVICE_INVALID@,
                                w,
                            ),
                    ),
                    check_views(checks@) == base + told.take(i as int),
                decreases warnings@.len() - i,
            {
                proof {
                    assert(text::texts(warnings@)[i as int] == warnings@[i as int]@);
                    assert(told.take(i + 1) == told.take(i as int).push(told[i as int]));
                }
                push_check(
                    checks,
                    "service_config_warning",
                    CheckStatus::Warn,
                    Some(constants::ERROR_CODE_CFG_SERVICE_INVALID),
                    warnings[i].clone(),
                );
                assert(check_views(checks@) == base + told.take(i + 1));
                i += 1;
            }
            proof {
                assert(told.take(i as int) == told);
                assert(check_views(checks@) == before + service_checks(*service));
            }
        },
        Err(e) => {
            push_check(
                checks,
                "service_config",
                CheckStatus::Fail,
                Some(constants::ERROR_CODE_CFG_SERVICE_INVALID),
                e.message(),
            );
            assert(check_views(checks@) == before + service_checks(*service));
        },
    }
}

fn push_program_check(
    checks: &mut Vec<DoctorCheck>,
    of_project: bool,
    name: &str,
    program: &str,
    present: bool,
)
    ensures
        check_views(final(checks)@) == (if present && of_project {
            check_views(old(checks)@)
        } else if present {
            check_views(old(checks)@).push(
                passed(
                    "service_callback_command"@,
                    "service callback profile '"@ + name@ + "' command exists: "@ + program@,
                ),
            )
        } else if of_project {
            check_views(old(checks)@).push(
                failed(
                    "project_callback_command"@,
                    constants::ERROR_CODE_CB_COMMAND_INVALID@,
                    "project callback profile '"@ + name@ + "' command '"@ + program@
                        + "' does not exist"@,
                ),
            )
        } else {
            check_views(old(checks)@).push(
                failed(
                    "service_callback_command"@,
                    constants::ERROR_CODE_CB_COMMAND_INVALID@,
                    "service callback profile '"@ + name@ + "' command '"@ + program@
                        + "' does not exist"@,
                ),
            )
        }),
{
    if present && of_project {
        return;
    }
    let mut message = if of_project {
        "project callback profile '".to_owned()
    } else {
        "service callback profile '".to_owned()
    };
    message.append(name);
    if present {
        message.append("' command exists: ");
        message.append(program);
        push_check(checks, "service_callback_command", CheckStatus::Pass, None, message);
        return;
    }
    message.append("' command '");
    message.append(program);
    message.append("' does not exist");
    let id = if of_project {
        "project_callback_command"
    } else {
        "service_callback_command"
    };
    push_check(
        checks,
        id,
        CheckStatus::Fail,
        Some(constants::ERROR_CODE_CB_COMMAND_INVALID),
        message,
    );
}

fn push_program_checks(
    checks: &mut Vec<DoctorCheck>,
    of_project: bool,
    profiles: &TextMap<CallbackProfile>,
    programs: &Vec<String>,
)
    ensures
        check_views(final(checks)@) == check_views(old(checks)@) + program_checks(
            of_project,
            profiles.items(),
            text::texts(programs@),
        ),
{
    let ghost base = check_views(checks@);
    let ghost items = profiles.items();
    let ghost known = text::texts(programs@);
    let n: usize = profiles.len();
    let mut i: usize = 0;
    proof {
        assert(items.take(0) == Seq::<(Seq<char>, CallbackProfile)>::empty());
        assert(base + program_checks(of_project, items.take(0), known) == base);
    }
    while i < n
        invariant
            i <= n,
            items == profiles.items(),
            n == items.len(),
            known == text::texts(programs@),
            check_views(checks@) == base + program_checks(of_project, items.take(i as int), known),
        decreases n - i,
    {
        let ghost before = check_views(checks@);
        proof {
            assert(items.take(i + 1).drop_last() == items.take(i as int));
            assert(items.take(i + 1).last() == items[i as int]);
        }
        if let CallbackProfile::Command(command) = profiles.value_at(i) {
            let present = list_has(programs, command.program.as_str());
            push_program_check(
                checks,
                of_project,
                profiles.key_at(i).as_str(),
                command.program.as_str(),
                present,
            );
        }
        assert(check_views(checks@) == base + program_checks(of_project, items.take(i + 1), known));
        i += 1;
    }
    assert(items.take(i as int) == items);
}

fn push_project_checks(checks: &mut Vec<DoctorCheck>, f: &Findings)
    ensures
        check_views(final(checks)@) == check_views(old(checks)@) + project_checks(*f),
{
    let ghost before = check_views(checks@);
    let problem = match &f.project {
        Ok(config) => match config.validate() {
            Ok(_) => None,
            Err(e) => Some(e.message()),
        },
        Err(e) => Some(e.message()),
    };
    if let Some(message) = problem {
        proof {
            if f.project is Err {
                assert(message@ == first_message(f.project->Err_0@));
            }
        }
        push_check(
            checks,
            "project_config",
            CheckStatus::Fail,
            Some(constants::ERROR_CODE_CFG_PROJECT_VALIDATION),
            message,
        );
        assert(check_views(checks@) == before + project_checks(*f));
        return;
    }
    push_check(
        checks,
        "project_config",
        CheckStatus::Pass,
        None,
        "project config validated".to_owned(),
    );
    match &f.runtime_problem {
        None => push_check(
            checks,
            "project_prompts",
            CheckStatus::Pass,
            None,
            "all prompt files are readable and non-empty".to_owned(),
        ),
        Some(message) => push_check(
            checks,
            "project_prompts",
            CheckStatus::Fail,
            Some(constants::ERROR_CODE_CFG_RUNTIME_IO),
            message.clone(),
        ),
    }
    if let Ok(config) = &f.project {
        push_program_checks(checks, true, &config.callbacks.profiles, &f.programs);
        assert(check_views(checks@) == before + project_checks(*f));
    }
}

fn push_runtime_dir_check(checks: &mut Vec<DoctorCheck>, dir: &str, probe: &RuntimeDirProbe)
    ensures
        check_views(final(checks)@) == check_views(old(checks)@).push(
            runtime_dir_check(dir@, *probe),
        ),
{
    match probe {
        RuntimeDirProbe::Writable => {
            let mut message = "runtime directory is writable: ".to_owned();
            message.append(dir);
            push_check(checks, "runtime_dir", CheckStatus::Pass, None, message);
        },
        RuntimeDirProbe::NotWritable(error) => {
            let mut message = "runtime directory is not writable '".to_owned();
            message.append(dir);
            message.append("': ");
            message.append(error.as_str());
            push_check(
                checks,
                "runtime_dir",
                CheckStatus::Fail,
                Some(constants::ERROR_CODE_CFG_RUNTIME_IO),
                message,
            );
        },
        RuntimeDirProbe::NotCreated(error) => {
            let mut message = "failed to create runtime directory '".to_owned();
            message.append(dir);
            message.append("': ");
            message.append(error.as_str());
            push_check(
                checks,
                "runtime_dir",
                CheckStatus::Fail,
                Some(constants::ERROR_CODE_CFG_RUNTIME_IO),
                message,
            );
        },
    }
}

fn push_git_check(checks: &mut Vec<DoctorCheck>, dir: &str, present: bool)
    ensures
        check_views(final(checks)@) == check_views(old(checks)@).push(git_check(dir@, present)),
{
    if present {
        let mut message = "git metadata present: ".to_owned();
        message.append(dir);
        push_check(checks, "git_access", CheckStatus::Pass, None, message);
    } else {
        push_check(
            checks,
            "git_access",
            CheckStatus::Warn,
            Some(constants::ERROR_CODE_CFG_RUNTIME_IO),
            "no .git directory found (worktree operations may fail)".to_owned(),
        );
    }
}

/// How many checks came out in a way.
pub fn count_checks(checks: &Vec<DoctorCheck>, status: CheckStatus) -> (r: usize)
    ensures
        r == count_of(check_views(checks@), status),
        r <= checks@.len(),
{
    let ghost all = check_views(checks@);
    let mut n: usize = 0;
    let mut i: usize = 0;
    assert(all.take(0) == Seq::<CheckView>::empty());
    while i < checks.len()
        invariant
            i <= checks@.len(),
            n <= i,
            all == check_views(checks@),
            n == count_of(all.take(i as int), status),
        decreases checks@.len() - i,
    {
        proof {
            assert(all.take(i + 1).drop_last() == all.take(i as int));
            assert(all.take(i + 1).last() == check_view(checks@[i as int]));
        }
        if checks[i].status == status {
            n += 1;
        }
        i += 1;
    }
    assert(all.take(i as int) == all);
    n
}

/// What is in order and what is not around a project.
pub fn examine(
    project_toml: &str,
    root: &str,
    binary: &str,
    service: &ServiceConfig,
    findings: &Findings,
) -> (r: DoctorReport)
    ensures
        r.project@ == project_toml@,
        check_views(r.checks@) == all_checks(binary@, *service, root@, *findings),
{
    let mut checks: Vec<DoctorCheck> = Vec::new();
    assert(check_views(checks@) == Seq::<CheckView>::empty());
    push_binary_check(&mut checks, binary, &findings.binary);
    push_service_checks(&mut checks, service);
    push_project_checks(&mut checks, findings);
    let runtime_dir = join_path(root, constants::FOREMAN_RUNTIME_DIR);
    push_runtime_dir_check(&mut checks, runtime_dir.as_str(), &findings.runtime_dir);
    let git_dir = join_path(root, ".git");
    push_git_check(&mut checks, git_dir.as_str(), findings.has_git);
    push_program_checks(
        &mut checks,
        false,
        &service.callbacks.profiles,
        &findings.programs,
    );
    assert(check_views(checks@) == all_checks(binary@, *service, root@, *findings));
    DoctorReport { project: project_toml.to_owned(), checks }
}

/// The line that sums up a report, and the error where something failed.
pub fn run_doctor_command(report: &DoctorReport) -> (r: (String, Result<(), ForemanError>))
    ensures
        ({
            let failures = count_of(check_views(report.checks@), CheckStatus::Fail);
            let warnings = count_of(check_views(report.checks@), CheckStatus::Warn);
            &&& r.0@ == "doctor summary: failures="@ + text::decimal(failures) + " warnings="@
                + text::decimal(warnings)
            &&& match r.1 {
                Ok(_) => failures == 0,
                Err(e) => failures > 0 && e@ == seq![
                    lint::coded(
                        constants::ERROR_CODE_WK_DOCTOR_FAILED@,
                        "doctor found "@ + text::decimal(failures) + " failure(s)"@,
                    ),
                ],
            }
        }),
{
    let failures = count_checks(&report.checks, CheckStatus::Fail);
    let warnings = count_checks(&report.checks, CheckStatus::Warn);
    let mut line = "doctor summary: failures=".to_owned();
    line.append(decimal_text(failures as u128).as_str());
    line.append(" warnings=");
    line.append(decimal_text(warnings as u128).as_str());
    if failures > 0 {
        let mut message = "doctor found ".to_owned();
        message.append(decimal_text(failures as u128).as_str());
        message.append(" failure(s)");
        return (
            line,
            Err(coded_error(constants::ERROR_CODE_WK_DOCTOR_FAILED, message.as_str())),
        );
    }
    (line, Ok(()))
}

/// The name of how a check came out.
pub fn status_name(status: CheckStatus) -> (r: &'static str)
    ensures
        r@ == (match status {
            CheckStatus::Pass => "pass"@,
            CheckStatus::Warn => "warn"@,
            CheckStatus::Fail => "fail"@,
        }),
{
    match status {
        CheckStatus::Pass => "pass",
        CheckStatus::Warn => "warn",
        CheckStatus::Fail => "fail",
    }
}

/// Checks are counted as having come out in a way exactly where one did.
pub proof fn law_failures_are_counted(v: Seq<CheckView>, status: CheckStatus)
    ensures
        count_of(v, status) <= v.len(),
        count_of(v, status) == 0 <==> forall|i: int|
            0 <= i < v.len() ==> (#[trigger] v[i]).1 != status,
    decreases v.len(),
{
    if v.len() > 0 {
        law_failures_are_counted(v.drop_last(), status);
        if count_of(v, status) == 0 {
            assert forall|i: int| 0 <= i < v.len() implies (#[trigger] v[i]).1 != status by {
                if i < v.len() - 1 {
                    assert(v.drop_last()[i] == v[i]);
                }
            }
        } else if v.last().1 != status {
            let k = choose|k: int|
                0 <= k < v.drop_last().len() && (#[trigger] v.drop_last()[k]).1 == status;
            assert(v[k].1 == status);
        } else {
            assert(v[v.len() - 1].1 == status);
        }
    }
}

/// A check passes where what it looks at is as it should be: the program runs, the directory is
/// writable, the prompts are there; a project without git is only doubtful.
pub proof fn law_checks_pass_what_is_in_order(
    binary: Seq<char>,
    probe: BinaryProbe,
    dir: Seq<char>,
    dir_probe: RuntimeDirProbe,
    problem: Option<Seq<char>>,
    present: bool,
)
    ensures
        binary_check(binary, probe).1 == CheckStatus::Pass <==> probe is Succeeded,
        !(probe is Succeeded) ==> binary_check(binary, probe).1 == CheckStatus::Fail,
        runtime_dir_check(dir, dir_probe).1 == CheckStatus::Pass <==> dir_probe is Writable,
        !(dir_probe is Writable) ==> runtime_dir_check(dir, dir_probe).1 == CheckStatus::Fail,
        files_check(problem).1 == CheckStatus::Pass <==> problem is None,
        problem is Some ==> files_check(problem).1 == CheckStatus::Fail && files_check(problem).3
            == problem->0,
        git_check(dir, present).1 == (if present { CheckStatus::Pass } else { CheckStatus::Warn }),
        binary_check(binary, probe).0 == "codex_binary"@,
        runtime_dir_check(dir, dir_probe).0 == "runtime_dir"@,
        git_check(dir, present).0 == "git_access"@,
{
}

/// A program of a profile is reported as missing exactly where it was not found, and one of the
/// service is told of also where it was.
pub proof fn law_missing_programs_are_reported(
    items: Seq<(Seq<char>, CallbackProfile)>,
    name: Seq<char>,
    profile: CallbackProfile,
    programs: Seq<Seq<char>>,
)
    ensures
        profile is Command && !programs.contains(profile->Command_0.program@) ==> program_checks(
            true,
            items.push((name, profile)),
            programs,
        ).len() == program_checks(true, items, programs).len() + 1 && program_checks(
            true,
            items.push((name, profile)),
            programs,
        ).last().1 == CheckStatus::Fail && program_checks(
            false,
            items.push((name, profile)),
            programs,
        ).last().1 == CheckStatus::Fail,
        profile is Command && programs.contains(profile->Command_0.program@) ==> program_checks(
            true,
            items.push((name, profile)),
            programs,
        ) == program_checks(true, items, programs) && program_checks(
            false,
            items.push((name, profile)),
            programs,
        ).last().1 == CheckStatus::Pass,
        !(profile is Command) ==> program_checks(true, items.push((name, profile)), programs)
            == program_checks(true, items, programs) && program_checks(
            false,
            items.push((name, profile)),
            programs,
        ) == program_checks(false, items, programs),
        program_checks(true, Seq::<(Seq<char>, CallbackProfile)>::empty(), programs).len() == 0,
{
    assert(items.push((name, profile)).drop_last() == items);
}

/// A configuration that is not in order fails, and one that is passes, with a warning for each
/// doubt.
pub proof fn law_service_is_checked(c: ServiceConfig)
    ensures
        config::config_problem(c) is Some ==> service_checks(c).len() == 1 && service_checks(c)[0].1
            == CheckStatus::Fail && service_checks(c)[0].3 == config::config_problem(c)->0,
        config::config_problem(c) is None ==> service_checks(c).len() == 1
            + config::config_warnings(c).len() && service_checks(c)[0].1 == CheckStatus::Pass,
        config::config_problem(c) is None ==> forall|i: int|
            0 <= i < config::config_warnings(c).len() ==> (#[trigger] service_checks(c)[i + 1]).1
                == CheckStatus::Warn && service_checks(c)[i + 1].3 == config::config_warnings(c)[i],
{
}

/// A project that cannot be read or is not in order fails its check, with the first thing that is
/// wrong with it.
pub proof fn law_project_is_checked(f: Findings)
    ensures
        f.project is Err ==> project_checks(f).len() == 1 && project_checks(f)[0].1
            == CheckStatus::Fail,
        f.project is Ok && project::project_problem(f.project->Ok_0) is Some ==> project_checks(
            f,
        ).len() == 1 && project_checks(f)[0].1 == CheckStatus::Fail,
        f.project is Ok && project::project_problem(f.project->Ok_0) is None ==> project_checks(
            f,
        ).len() >= 2 && project_checks(f)[0].1 == CheckStatus::Pass && (project_checks(f)[1].1
            == CheckStatus::Pass <==> f.runtime_problem is None),
{
}

/// All that is looked at is in the report, in this order: the program, the service, the project,
/// the directory, git, and the programs of the service.
pub proof fn law_report_holds_every_check(
    binary: Seq<char>,
    service: ServiceConfig,
    root: Seq<char>,
    f: Findings,
)
    ensures
        ({
            let all = all_checks(binary, service, root, f);
            let s = service_checks(service);
            let p = project_checks(f);
            &&& all[0] == binary_check(binary, f.binary)
            &&& all.len() == 3 + s.len() + p.len() + program_checks(
                false,
                service.callbacks.profiles.items(),
                text::texts(f.programs@),
            ).len()
            &&& forall|i: int| 0 <= i < s.len() ==> all[1 + i] == #[trigger] s[i]
            &&& forall|i: int| 0 <= i < p.len() ==> all[1 + s.len() + i] == #[trigger] p[i]
            &&& all[(1 + s.len() + p.len()) as int].0 == "runtime_dir"@
            &&& all[(2 + s.len() + p.len()) as int].0 == "git_access"@
        }),
{
}

/// Checks are known by what they look at, and failures by their code.
pub proof fn law_checks_are_known_by_their_names(
    name: Seq<char>,
    profile: CallbackProfile,
    programs: Seq<Seq<char>>,
    problem: Option<Seq<char>>,
    chain: Seq<Seq<char>>,
)
    ensures
        files_check(problem).0 == "project_prompts"@,
        problem is Some ==> files_check(problem).2 == Some("CFG_RUNTIME_IO"@),
        profile is Command ==> service_program(name, profile, programs).len() == 1
            && service_program(name, profile, programs)[0].0 == "service_callback_command"@,
        profile is Command && !programs.contains(profile->Command_0.program@) ==> service_program(
            name,
            profile,
            programs,
        )[0].2 == Some("CB_COMMAND_INVALID"@) && project_program(name, profile, programs)[0].0
            == "project_callback_command"@,
        chain.len() > 0 ==> first_message(chain) == chain[0],
        chain.len() == 0 ==> first_message(chain).len() == 0,
{
}

} // verus!

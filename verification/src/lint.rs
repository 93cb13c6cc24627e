//! What is wrong with a project's manifest, told to a person.
use vstd::prelude::*;

use crate::config::CallbackProfile;
use crate::constants;
use crate::error::ForemanError;
use crate::manifest;
use crate::manifest::{
    has_root_key, parse_manifest, push_issue, validate_unknown_keys, ProjectLintReport,
};
use crate::project;
use crate::project::{parse_error, CallbackSpec, FileText, ProjectConfig};
use crate::text;
use crate::text_map::TextMap;
use crate::text_search::decimal_text;

verus! {

/// Whether there is a profile of a name, in the project or in the service.
pub open spec fn is_known(
    name: Seq<char>,
    c: ProjectConfig,
    service: Map<Seq<char>, CallbackProfile>,
) -> bool {
    c.callbacks.profiles@.dom().contains(name) || service.dom().contains(name)
}

/// That a callback names a profile that there is not.
pub open spec fn missing_profile(place: Seq<char>, name: Seq<char>) -> manifest::IssueView {
    (
        constants::ERROR_CODE_CFG_CALLBACK_PROFILE_MISSING@,
        place + ".callback_profile"@,
        "unknown callback profile '"@ + name + "'"@,
    )
}

/// What is wrong with the profile of a callback.
pub open spec fn spec_issue(
    place: Seq<char>,
    s: CallbackSpec,
    c: ProjectConfig,
    service: Map<Seq<char>, CallbackProfile>,
) -> Seq<manifest::IssueView> {
    match s.callback_profile {
        Some(name) => if is_known(name@, c, service) {
            Seq::empty()
        } else {
            seq![missing_profile(place, name@)]
        },
        None => Seq::empty(),
    }
}

/// What is wrong with the profiles of the first filters.
pub open spec fn filter_issues(
    c: ProjectConfig,
    service: Map<Seq<char>, CallbackProfile>,
    n: int,
) -> Seq<manifest::IssueView>
    decreases n,
{
    if n <= 0 {
        Seq::empty()
    } else {
        let before = filter_issues(c, service, n - 1);
        let name = c.callbacks.filters@[n - 1].callback_profile@;
        if is_known(name, c, service) {
            before
        } else {
            before.push(
                missing_profile(
                    "callbacks.filters["@ + text::decimal((n - 1) as nat) + "]"@,
                    name,
                ),
            )
        }
    }
}

/// What is wrong with the profiles that a project's callbacks name.
pub open spec fn reference_issues(
    c: ProjectConfig,
    service: Map<Seq<char>, CallbackProfile>,
) -> Seq<manifest::IssueView> {
    let life = c.callbacks.lifecycle;
    spec_issue("callbacks.worker"@, c.callbacks.worker, c, service) + spec_issue(
        "callbacks.foreman"@,
        c.callbacks.foreman,
        c,
        service,
    ) + spec_issue("callbacks.bubble_up"@, c.callbacks.bubble_up, c, service) + spec_issue(
        "callbacks.lifecycle.start"@,
        life.start,
        c,
        service,
    ) + spec_issue("callbacks.lifecycle.compact"@, life.compact, c, service) + spec_issue(
        "callbacks.lifecycle.stop"@,
        life.stop,
        c,
        service,
    ) + spec_issue(
        "callbacks.lifecycle.worker_completed"@,
        life.worker_completed,
        c,
        service,
    ) + spec_issue(
        "callbacks.lifecycle.worker_aborted"@,
        life.worker_aborted,
        c,
        service,
    ) + filter_issues(c, service, c.callbacks.filters@.len() as int)
}

/// The issue of a manifest with the old table of hooks.
pub open spec fn hooks_issues(m: manifest::ManifestView) -> Seq<manifest::IssueView> {
    if manifest::child(Some(m), "hooks"@) is Some {
        seq![
            (
                constants::ERROR_CODE_CFG_PROJECT_PARSE@,
                "hooks"@,
                "unsupported [hooks]; use [callbacks.lifecycle]"@,
            ),
        ]
    } else {
        Seq::empty()
    }
}

/// What is wrong with a manifest that can be read.
pub open spec fn lint_issues(
    m: manifest::ManifestView,
    c: ProjectConfig,
    service: Map<Seq<char>, CallbackProfile>,
) -> Seq<manifest::IssueView> {
    hooks_issues(m) + manifest::manifest_issues(m) + reference_issues(c, service)
}

fn push_missing_profile(report: &mut ProjectLintReport, place: &str, name: &str)
    ensures
        final(report).fixed == old(report).fixed,
        manifest::issue_views(final(report).issues@) == manifest::issue_views(
            old(report).issues@,
        ).push(missing_profile(place@, name@)),
{
    let mut path = place.to_owned();
    path.append(".callback_profile");
    let mut message = "unknown callback profile '".to_owned();
    message.append(name);
    message.append("'");
    push_issue(report, constants::ERROR_CODE_CFG_CALLBACK_PROFILE_MISSING, path, message);
}

fn is_known_profile(
    name: &str,
    config: &ProjectConfig,
    service_profiles: &TextMap<CallbackProfile>,
) -> (r: bool)
    ensures
        r == is_known(name@, *config, service_profiles@),
{
    config.callbacks.profiles.contains_key(name) || service_profiles.contains_key(name)
}

fn push_spec_issue(
    place: &str,
    callback: &CallbackSpec,
    config: &ProjectConfig,
    service_profiles: &TextMap<CallbackProfile>,
    report: &mut ProjectLintReport,
)
    ensures
        final(report).fixed == old(report).fixed,
        manifest::issue_views(final(report).issues@) == manifest::issue_views(old(report).issues@)
            + spec_issue(place@, *callback, *config, service_profiles@),
{
    let ghost before = manifest::issue_views(report.issues@);
    if let Some(name) = &callback.callback_profile {
        if !is_known_profile(name.as_str(), config, service_profiles) {
            push_missing_profile(report, place, name.as_str());
            assert(before.push(missing_profile(place@, name@)) == before + seq![
                missing_profile(place@, name@),
            ]);
            return;
        }
    }
    assert(before + Seq::<manifest::IssueView>::empty() == before);
}

/// Adds an issue for each callback and each filter that names a profile that there is not.
pub fn validate_callback_profile_references(
    config: &ProjectConfig,
    service_profiles: &TextMap<CallbackProfile>,
    report: &mut ProjectLintReport,
)
    ensures
        final(report).fixed == old(report).fixed,
        manifest::issue_views(final(report).issues@) == manifest::issue_views(old(report).issues@)
            + reference_issues(*config, service_profiles@),
{
    let ghost first = manifest::issue_views(report.issues@);
    let life = &config.callbacks.lifecycle;
    push_spec_issue("callbacks.worker", &config.callbacks.worker, config, service_profiles, report);
    push_spec_issue(
        "callbacks.foreman",
        &config.callbacks.foreman,
        config,
        service_profiles,
        report,
    );
    push_spec_issue(
        "callbacks.bubble_up",
        &config.callbacks.bubble_up,
        config,
        service_profiles,
        report,
    );
    push_spec_issue(
        "callbacks.lifecycle.start",
        &life.start,
        config,
        service_profiles,
        report,
    );
    push_spec_issue(
        "callbacks.lifecycle.compact",
        &life.compact,
        config,
        service_profiles,
        report,
    );
    push_spec_issue("callbacks.lifecycle.stop", &life.stop, config, service_profiles, report);
    push_spec_issue(
        "callbacks.lifecycle.worker_completed",
        &life.worker_completed,
        config,
        service_profiles,
        report,
    );
    push_spec_issue(
        "callbacks.lifecycle.worker_aborted",
        &life.worker_aborted,
        config,
        service_profiles,
        report,
    );
    let ghost before = manifest::issue_views(report.issues@);
    let filters = &config.callbacks.filters;
    let mut i: usize = 0;
    assert(before + filter_issues(*config, service_profiles@, 0) == before);
    while i < filters.len()
        invariant
            i <= filters@.len(),
            *filters == config.callbacks.filters,
            report.fixed == old(report).fixed,
            manifest::issue_views(report.issues@) == before + filter_issues(
                *config,
                service_profiles@,
                i as int,
            ),
        decreases filters@.len() - i,
    {
        let name = filters[i].callback_profile.as_str();
        if !is_known_profile(name, config, service_profiles) {
            let mut place = "callbacks.filters[".to_owned();
            place.append(decimal_text(i as u128).as_str());
            place.append("]");
            push_missing_profile(report, place.as_str(), name);
        }
        assert(manifest::issue_views(report.issues@) == before + filter_issues(
            *config,
            service_profiles@,
            i + 1,
        ));
        i += 1;
    }
    assert(manifest::issue_views(report.issues@) == first + reference_issues(
        *config,
        service_profiles@,
    ));
}

/// What is wrong with a project's manifest, given what came of reading its text and the values in
/// it. Nothing is rewritten, also where that is asked for.
pub fn lint_project_toml(
    path: &str,
    raw: FileText,
    read: Result<ProjectConfig, String>,
    service_profiles: &TextMap<CallbackProfile>,
    fix: bool,
) -> (r: Result<ProjectLintReport, ForemanError>)
    ensures
        match raw {
            Err(cause) => r matches Err(e) && e@ == seq![
                constants::ERROR_CODE_CFG_PROJECT_PATH_INVALID@ + " failed to read project config "@
                    + path@,
                cause@,
            ],
            Ok(raw) => match manifest::manifest_of(raw@) {
                Err(cause) => r matches Err(e) && e@ == project::parse_chain(cause),
                Ok(m) => match read {
                    Err(cause) => r matches Err(e) && e@ == project::parse_chain(cause@),
                    Ok(c) => match project::project_problem(c) {
                        Some(chain) => r matches Err(e) && e@ == chain,
                        None => r matches Ok(report) && !report.fixed && manifest::issue_views(
                            report.issues@,
                        ) == lint_issues(m, c, service_profiles@),
                    },
                },
            },
        },
{
    let raw = match raw {
        Ok(raw) => raw,
        Err(cause) => {
            let mut message = constants::ERROR_CODE_CFG_PROJECT_PATH_INVALID.to_owned();
            message.append(" failed to read project config ");
            message.append(path);
            let e = ForemanError::new(cause).context(message);
            assert(e@ == seq![message@, cause@]);
            return Err(e);
        },
    };
    let m = match parse_manifest(raw.as_str()) {
        Ok(m) => m,
        Err(cause) => {
            return Err(parse_error(cause));
        },
    };
    let mut report = ProjectLintReport { issues: Vec::new(), fixed: false };
    assert(manifest::issue_views(report.issues@) == Seq::<manifest::IssueView>::empty());
    if has_root_key(&m, "hooks") {
        push_issue(
            &mut report,
            constants::ERROR_CODE_CFG_PROJECT_PARSE,
            "hooks".to_owned(),
            "unsupported [hooks]; use [callbacks.lifecycle]".to_owned(),
        );
    }
    assert(manifest::issue_views(report.issues@) == hooks_issues(m@));
    validate_unknown_keys(&m, &mut report);
    let config = match read {
        Ok(config) => config,
        Err(cause) => {
            return Err(parse_error(cause));
        },
    };
    if let Err(e) = config.validate() {
        return Err(e);
    }
    validate_callback_profile_references(&config, service_profiles, &mut report);
    Ok(report)
}

/// A message with a code before it.
pub open spec fn coded(code: Seq<char>, message: Seq<char>) -> Seq<char> {
    "["@ + code + "] "@ + message
}

/// An error with a code before its message.
pub fn coded_error(code: &str, message: &str) -> (r: ForemanError)
    ensures
        r@ == seq![coded(code@, message@)],
{
    let mut text = "[".to_owned();
    text.append(code);
    text.append("] ");
    text.append(message);
    ForemanError::new(text)
}

/// The line that tells of an issue.
pub open spec fn issue_line(issue: manifest::IssueView) -> Seq<char> {
    "["@ + issue.0 + "] "@ + issue.1 + ": "@ + issue.2
}

/// The lines that tell of issues.
pub open spec fn issue_lines(issues: Seq<manifest::IssueView>) -> Seq<Seq<char>> {
    issues.map_values(|i: manifest::IssueView| issue_line(i))
}

/// The issues of a manifest with that of the project's files behind them.
pub open spec fn with_runtime(
    issues: Seq<manifest::IssueView>,
    runtime_problem: Option<Seq<char>>,
) -> Seq<manifest::IssueView> {
    match runtime_problem {
        Some(message) => issues.push(
            (constants::ERROR_CODE_CFG_RUNTIME_IO@, "prompts"@, message),
        ),
        None => issues,
    }
}

/// What is printed of the issues.
pub open spec fn lint_output(issues: Seq<manifest::IssueView>, path: Seq<char>, fix: bool) -> Seq<
    Seq<char>,
> {
    if issues.len() == 0 {
        let passed = seq!["project lint passed: "@ + path];
        if fix {
            passed.push("autofix: no safe rewrites required"@)
        } else {
            passed
        }
    } else {
        seq![
            "project lint found "@ + text::decimal(issues.len()) + " issue(s): "@ + path,
        ] + issue_lines(issues)
    }
}

/// The lines that tell of what is wrong with a project, and the error where something is.
/// `runtime_problem` is why the project's files cannot be used.
pub fn run_project_lint_command(
    report: ProjectLintReport,
    runtime_problem: Option<String>,
    path: &str,
    fix: bool,
) -> (r: (Vec<String>, Result<(), ForemanError>))
    ensures
        ({
            let issues = with_runtime(
                manifest::issue_views(report.issues@),
                text::opt_text(runtime_problem),
            );
            &&& text::texts(r.0@) == lint_output(issues, path@, fix)
            &&& match r.1 {
                Ok(_) => issues.len() == 0,
                Err(e) => issues.len() > 0 && e@ == seq![
                    coded(
                        constants::ERROR_CODE_CFG_PROJECT_VALIDATION@,
                        "project lint failed with "@ + text::decimal(issues.len()) + " issue(s)"@,
                    ),
                ],
            }
        }),
{
    let mut report = report;
    if let Some(message) = runtime_problem {
        push_issue(
            &mut report,
            constants::ERROR_CODE_CFG_RUNTIME_IO,
            "prompts".to_owned(),
            message,
        );
    }
    let ghost issues = manifest::issue_views(report.issues@);
    let mut out: Vec<String> = Vec::new();
    if report.issues.len() == 0 {
        let mut line = "project lint passed: ".to_owned();
        line.append(path);
        out.push(line);
        if fix {
            out.push("autofix: no safe rewrites required".to_owned());
        }
        assert(text::texts(out@) == lint_output(issues, path@, fix));
        return (out, Ok(()));
    }
    let count = decimal_text(report.issues.len() as u128);
    let mut head = "project lint found ".to_owned();
    head.append(count.as_str());
    head.append(" issue(s): ");
    head.append(path);
    let ghost head_text = head@;
    out.push(head);
    let mut i: usize = 0;
    assert(text::texts(out@) == seq![head_text] + issue_lines(issues.take(0)));
    while i < report.issues.len()
        invariant
            i <= report.issues@.len(),
            issues == manifest::issue_views(report.issues@),
            text::texts(out@) == seq![head_text] + issue_lines(issues.take(i as int)),
        decreases report.issues@.len() - i,
    {
        let issue = &report.issues[i];
        let mut line = "[".to_owned();
        line.append(issue.code);
        line.append("] ");
        line.append(issue.path.as_str());
        line.append(": ");
        line.append(issue.message.as_str());
        let ghost before = text::texts(out@);
        out.push(line);
        proof {
            assert(line@ == issue_line(issues[i as int]));
            assert(text::texts(out@) == before.push(line@));
            assert(issue_lines(issues.take(i + 1)) == issue_lines(issues.take(i as int)).push(
                line@,
            ));
            assert(text::texts(out@) == seq![head_text] + issue_lines(issues.take(i + 1)));
        }
        i += 1;
    }
    assert(issues.take(i as int) == issues);
    let mut message = "project lint failed with ".to_owned();
    message.append(count.as_str());
    message.append(" issue(s)");
    (out, Err(coded_error(constants::ERROR_CODE_CFG_PROJECT_VALIDATION, message.as_str())))
}

/// A callback that names no profile, or one that there is, is never reported.
pub proof fn law_known_profiles_are_not_reported(
    place: Seq<char>,
    s: CallbackSpec,
    c: ProjectConfig,
    service: Map<Seq<char>, CallbackProfile>,
)
    ensures
        spec_issue(place, s, c, service).len() == 0 <==> (s.callback_profile matches Some(name)
            ==> is_known(name@, c, service)),
{
}

/// A report has a line for each issue behind the one that says how many there are; without an issue
/// it says that all is well.
pub proof fn law_each_issue_has_its_line(
    issues: Seq<manifest::IssueView>,
    path: Seq<char>,
    fix: bool,
)
    ensures
        issues.len() > 0 ==> lint_output(issues, path, fix).len() == 1 + issues.len(),
        issues.len() > 0 ==> forall|i: int|
            0 <= i < issues.len() ==> #[trigger] lint_output(issues, path, fix)[i + 1] == "["@
                + issues[i].0 + "] "@ + issues[i].1 + ": "@ + issues[i].2,
        issues.len() == 0 ==> lint_output(issues, path, fix)[0] == "project lint passed: "@ + path
            && lint_output(issues, path, fix).len() == (if fix { 2nat } else { 1nat }),
        coded(path, path) == "["@ + path + "] "@ + path,
{
}

/// What is wrong with the files is one issue more, behind the others; else the issues stay.
pub proof fn law_missing_files_are_an_issue(
    issues: Seq<manifest::IssueView>,
    problem: Seq<char>,
)
    ensures
        with_runtime(issues, None) == issues,
        with_runtime(issues, Some(problem)).len() == issues.len() + 1,
        with_runtime(issues, Some(problem)).last().0 == "CFG_RUNTIME_IO"@,
        with_runtime(issues, Some(problem)).last().2 == problem,
        with_runtime(issues, Some(problem)).drop_last() == issues,
{
}

/// Every place that names a profile that there is not is reported, with the place: the callbacks of
/// the workers, the foreman and of what is passed up, those of each step, and each filter.
pub proof fn law_every_place_is_looked_at(
    c: ProjectConfig,
    service: Map<Seq<char>, CallbackProfile>,
    k: int,
)
    ensures
        ({
            let known = |s: CallbackSpec|
                s.callback_profile is None || c.callbacks.profiles@.dom().contains(
                    s.callback_profile->0@,
                ) || service.dom().contains(s.callback_profile->0@);
            &&& reference_issues(c, service).len() == 0 ==> known(c.callbacks.worker) && known(
                c.callbacks.foreman,
            ) && known(c.callbacks.bubble_up) && known(c.callbacks.lifecycle.start) && known(
                c.callbacks.lifecycle.compact,
            ) && known(c.callbacks.lifecycle.stop) && known(
                c.callbacks.lifecycle.worker_completed,
            ) && known(c.callbacks.lifecycle.worker_aborted)
            &&& reference_issues(c, service).len() == 0 && 0 <= k < c.callbacks.filters@.len()
                ==> c.callbacks.profiles@.dom().contains(
                c.callbacks.filters@[k].callback_profile@,
            ) || service.dom().contains(c.callbacks.filters@[k].callback_profile@)
        }),
{
    if 0 <= k < c.callbacks.filters@.len() {
        lemma_filter_is_reported(c, service, c.callbacks.filters@.len() as int, k);
    }
}

proof fn lemma_filter_is_reported(
    c: ProjectConfig,
    service: Map<Seq<char>, CallbackProfile>,
    n: int,
    k: int,
)
    requires
        0 <= k < n <= c.callbacks.filters@.len(),
    ensures
        filter_issues(c, service, n).len() == 0 ==> is_known(
            c.callbacks.filters@[k].callback_profile@,
            c,
            service,
        ),
    decreases n,
{
    if k < n - 1 {
        lemma_filter_is_reported(c, service, n - 1, k);
    }
}

/// What is found comes from all three looks: at the old form, at the keys, and at the profiles.
pub proof fn law_old_forms_are_reported(
    m: manifest::ManifestView,
    c: ProjectConfig,
    service: Map<Seq<char>, CallbackProfile>,
)
    ensures
        manifest::child(Some(m), "hooks"@) is Some ==> lint_issues(m, c, service).len() > 0
            && lint_issues(m, c, service)[0].1 == "hooks"@,
        lint_issues(m, c, service).len() == 0 <==> manifest::child(Some(m), "hooks"@) is None
            && manifest::manifest_issues(m).len() == 0 && reference_issues(c, service).len() == 0,
{
}

/// A profile that there is not is told with its name and the place that names it.
pub proof fn law_missing_profiles_are_named(place: Seq<char>, name: Seq<char>)
    ensures
        missing_profile(place, name).0 == "CFG_CALLBACK_PROFILE_MISSING"@,
        missing_profile(place, name).1 == place + ".callback_profile"@,
        missing_profile(place, name).2 == "unknown callback profile '"@ + name + "'"@,
{
}

} // verus!

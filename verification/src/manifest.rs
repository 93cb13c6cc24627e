//! The project manifest as a tree of tables, and the keys that it may hold.
use vstd::prelude::*;

use crate::constants;
use crate::text;
use crate::text::same_text;
use crate::text_search::decimal_text;

verus! {

/// A TOML document, as far as its shape counts. The entries of a table stand in the order of
/// its keys.
#[derive(Debug)]
pub enum Manifest {
    Table(Vec<(String, Manifest)>),
    Array(Vec<Manifest>),
    Leaf,
}

/// What a manifest stands for.
pub enum ManifestView {
    Table(Seq<(Seq<char>, ManifestView)>),
    Array(Seq<ManifestView>),
    Leaf,
}

impl Manifest {
    /// What the manifest stands for.
    pub open spec fn model(self) -> ManifestView
        decreases self,
    {
        match self {
            Manifest::Table(v) => ManifestView::Table(table_model(v@)),
            Manifest::Array(v) => ManifestView::Array(array_model(v@)),
            Manifest::Leaf => ManifestView::Leaf,
        }
    }
}

/// What the entries of a table stand for.
pub open spec fn table_model(items: Seq<(String, Manifest)>) -> Seq<(Seq<char>, ManifestView)>
    decreases items,
{
    if items.len() == 0 {
        Seq::empty()
    } else {
        table_model(items.drop_last()).push((items.last().0@, items.last().1.model()))
    }
}

/// What the values of an array stand for.
pub open spec fn array_model(items: Seq<Manifest>) -> Seq<ManifestView>
    decreases items,
{
    if items.len() == 0 {
        Seq::empty()
    } else {
        array_model(items.drop_last()).push(items.last().model())
    }
}

impl View for Manifest {
    type V = ManifestView;

    open spec fn view(&self) -> ManifestView {
        self.model()
    }
}

/// The value type of `toml`.
#[verifier::external_type_specification]
#[verifier::external_body]
pub struct ExTomlValue(toml::Value);

/// What a `toml` value stands for.
pub uninterp spec fn toml_view(value: toml::Value) -> ManifestView;

/// What `toml::from_str` reads as a value, or the text of its error.
pub uninterp spec fn toml_parsed(raw: Seq<char>) -> Result<toml::Value, Seq<char>>;

/// The value that `toml::from_str` read, and the text of its error.
pub open spec fn parse_view(r: Result<toml::Value, String>) -> Result<toml::Value, Seq<char>> {
    match r {
        Ok(value) => Ok(value),
        Err(e) => Err(e@),
    }
}

/// `toml::from_str`: the value that a text holds, or the text of the error.
#[verifier::external_body]
fn read_toml(raw: &str) -> (r: Result<toml::Value, String>)
    ensures
        parse_view(r) == toml_parsed(raw@),
{
    toml::from_str::<toml::Value>(raw).map_err(|e| e.to_string())
}

/// A `toml::Value` as a manifest: tables and arrays as they are, other values as leaves.
#[verifier::external_body]
fn from_toml(value: &toml::Value) -> (r: Manifest)
    ensures
        r@ == toml_view(*value),
{
    match value {
        toml::Value::Table(t) => Manifest::Table(
            t.iter().map(|(k, v)| (k.clone(), from_toml(v))).collect(),
        ),
        toml::Value::Array(a) => Manifest::Array(a.iter().map(from_toml).collect()),
        _ => Manifest::Leaf,
    }
}

/// The manifest that a text holds, or the text of the error.
pub open spec fn manifest_of(raw: Seq<char>) -> Result<ManifestView, Seq<char>> {
    match toml_parsed(raw) {
        Ok(value) => Ok(toml_view(value)),
        Err(e) => Err(e),
    }
}

/// The manifest that a text holds, or the text of the error.
pub fn parse_manifest(raw: &str) -> (r: Result<Manifest, String>)
    ensures
        match r {
            Ok(m) => manifest_of(raw@) == Ok::<ManifestView, Seq<char>>(m@),
            Err(e) => manifest_of(raw@) == Err::<ManifestView, Seq<char>>(e@),
        },
{
    match read_toml(raw) {
        Ok(value) => Ok(from_toml(&value)),
        Err(e) => Err(e),
    }
}

/// Something that a manifest gets wrong.
#[derive(Debug, Clone)]
pub struct ProjectLintIssue {
    pub code: &'static str,
    pub path: String,
    pub message: String,
}

/// What a manifest gets wrong.
#[derive(Debug, Clone)]
pub struct ProjectLintReport {
    pub issues: Vec<ProjectLintIssue>,
    pub fixed: bool,
}

/// An issue by its code, its path and its message.
pub type IssueView = (Seq<char>, Seq<char>, Seq<char>);

/// What an issue says.
pub open spec fn issue_view(issue: ProjectLintIssue) -> IssueView {
    (issue.code@, issue.path@, issue.message@)
}

/// What the issues say.
pub open spec fn issue_views(issues: Seq<ProjectLintIssue>) -> Seq<IssueView> {
    issues.map_values(|i: ProjectLintIssue| issue_view(i))
}

/// The path of a key below a prefix.
pub open spec fn key_path(prefix: Seq<char>, key: Seq<char>) -> Seq<char> {
    if prefix.len() == 0 {
        key
    } else {
        prefix + "."@ + key
    }
}

/// An issue for each key of a table that is not one of the allowed ones.
pub open spec fn unknown_keys(
    items: Seq<(Seq<char>, ManifestView)>,
    prefix: Seq<char>,
    allowed: Seq<Seq<char>>,
) -> Seq<IssueView>
    decreases items.len(),
{
    if items.len() == 0 {
        Seq::empty()
    } else {
        let rest = unknown_keys(items.drop_last(), prefix, allowed);
        let key = items.last().0;
        if allowed.contains(key) {
            rest
        } else {
            rest.push(
                (
                    constants::ERROR_CODE_CFG_PROJECT_UNKNOWN_KEY@,
                    key_path(prefix, key),
                    "unknown key"@,
                ),
            )
        }
    }
}

/// The value of the first entry with key `key`.
pub open spec fn entry_of(items: Seq<(Seq<char>, ManifestView)>, key: Seq<char>) -> Option<ManifestView>
    decreases items.len(),
{
    if items.len() == 0 {
        None
    } else if items[0].0 == key {
        Some(items[0].1)
    } else {
        entry_of(items.skip(1), key)
    }
}

/// The value of `key` in a table; nothing else has keys.
pub open spec fn child(m: Option<ManifestView>, key: Seq<char>) -> Option<ManifestView> {
    match m {
        Some(ManifestView::Table(items)) => entry_of(items, key),
        _ => None,
    }
}

/// An issue for each unknown key of a value that is a table.
pub open spec fn table_issues(
    m: Option<ManifestView>,
    prefix: Seq<char>,
    allowed: Seq<Seq<char>>,
) -> Seq<IssueView> {
    match m {
        Some(ManifestView::Table(items)) => unknown_keys(items, prefix, allowed),
        _ => Seq::empty(),
    }
}

/// The keys of the manifest's root.
pub open spec fn root_keys() -> Seq<Seq<char>> {
    seq!["name"@, "prompts"@, "callbacks"@, "policy"@, "jobs"@, "validation"@]
}

/// The keys of `prompts`.
pub open spec fn prompts_keys() -> Seq<Seq<char>> {
    seq!["foreman_file"@, "worker_file"@, "runbook_file"@, "handoff_file"@]
}

/// The keys of `callbacks`.
pub open spec fn callbacks_keys() -> Seq<Seq<char>> {
    seq!["env"@, "profiles"@, "filters"@, "worker"@, "foreman"@, "bubble_up"@, "lifecycle"@]
}

/// The keys of an entry of `callbacks.filters`.
pub open spec fn filter_keys() -> Seq<Seq<char>> {
    seq!["name"@, "callback_profile"@, "tool"@, "command_pattern"@, "debounce_ms"@]
}

/// The keys of a callback's table.
pub open spec fn spec_keys() -> Seq<Seq<char>> {
    seq![
        "callback_profile"@,
        "callback_prompt_prefix"@,
        "callback_args"@,
        "callback_events"@,
        "events"@,
        "callback_vars"@,
        "socket"@,
        "timeout_ms"@,
    ]
}

/// The keys of `callbacks.lifecycle`.
pub open spec fn lifecycle_keys() -> Seq<Seq<char>> {
    seq!["start"@, "compact"@, "stop"@, "worker_completed"@, "worker_aborted"@]
}

/// The keys of `policy`.
pub open spec fn policy_keys() -> Seq<Seq<char>> {
    seq!["bubble_up_events"@, "compact_after_turns"@]
}

/// The keys of `jobs`.
pub open spec fn jobs_keys() -> Seq<Seq<char>> {
    seq!["defaults"@]
}

/// The keys of `jobs.defaults`.
pub open spec fn defaults_keys() -> Seq<Seq<char>> {
    seq!["min_turns"@, "strategy"@, "worktree_mode"@, "merge_strategy"@, "base_branch"@]
}

/// The keys of `validation`.
pub open spec fn validation_keys() -> Seq<Seq<char>> {
    seq!["on_turn"@, "on_complete"@, "fail_action"@, "max_retries"@]
}

/// The path of entry `i` of `callbacks.filters`.
pub open spec fn filter_path(i: nat) -> Seq<char> {
    "callbacks.filters["@ + text::decimal(i) + "]"@
}

/// The issues of the tables among the filters.
pub open spec fn filter_issues(items: Seq<ManifestView>) -> Seq<IssueView>
    decreases items.len(),
{
    if items.len() == 0 {
        Seq::empty()
    } else {
        filter_issues(items.drop_last()) + table_issues(
            Some(items.last()),
            filter_path((items.len() - 1) as nat),
            filter_keys(),
        )
    }
}

/// The issues of `callbacks.filters`, where that is an array.
pub open spec fn filters_issues(filters: Option<ManifestView>) -> Seq<IssueView> {
    match filters {
        Some(ManifestView::Array(items)) => filter_issues(items),
        _ => Seq::empty(),
    }
}

/// The issues of the callback tables named `names` in `parent`, each below `prefix`.
pub open spec fn named_specs_issues(
    parent: Option<ManifestView>,
    prefix: Seq<char>,
    names: Seq<Seq<char>>,
) -> Seq<IssueView>
    decreases names.len(),
{
    if names.len() == 0 {
        Seq::empty()
    } else {
        named_specs_issues(parent, prefix, names.drop_last()) + table_issues(
            child(parent, names.last()),
            prefix + names.last(),
            spec_keys(),
        )
    }
}

/// The issues of `callbacks`.
pub open spec fn callbacks_issues(callbacks: Option<ManifestView>) -> Seq<IssueView> {
    let lifecycle = child(callbacks, "lifecycle"@);
    table_issues(callbacks, "callbacks"@, callbacks_keys()) + filters_issues(
        child(callbacks, "filters"@),
    ) + named_specs_issues(
        callbacks,
        "callbacks."@,
        seq!["worker"@, "foreman"@, "bubble_up"@],
    ) + table_issues(lifecycle, "callbacks.lifecycle"@, lifecycle_keys()) + named_specs_issues(
        lifecycle,
        "callbacks.lifecycle."@,
        lifecycle_keys(),
    )
}

/// The issues of `jobs`.
pub open spec fn jobs_issues(jobs: Option<ManifestView>) -> Seq<IssueView> {
    table_issues(jobs, "jobs"@, jobs_keys()) + table_issues(
        child(jobs, "defaults"@),
        "jobs.defaults"@,
        defaults_keys(),
    )
}

/// What a manifest holds that it may not: an issue for each unknown key, section by section.
pub open spec fn manifest_issues(m: ManifestView) -> Seq<IssueView> {
    let root = Some(m);
    if m is Table {
        table_issues(root, Seq::empty(), root_keys()) + table_issues(
            child(root, "prompts"@),
            "prompts"@,
            prompts_keys(),
        ) + callbacks_issues(child(root, "callbacks"@)) + table_issues(
            child(root, "policy"@),
            "policy"@,
            policy_keys(),
        ) + jobs_issues(child(root, "jobs"@)) + table_issues(
            child(root, "validation"@),
            "validation"@,
            validation_keys(),
        )
    } else {
        seq![
            (
                constants::ERROR_CODE_CFG_PROJECT_PARSE@,
                "root"@,
                "project config root must be a TOML table"@,
            ),
        ]
    }
}

/// The manifest behind an optional reference.
pub open spec fn behind(r: Option<&Manifest>) -> Option<ManifestView> {
    match r {
        Some(m) => Some(m@),
        None => None,
    }
}

/// The list of texts.
pub open spec fn str_texts(keys: Seq<&str>) -> Seq<Seq<char>> {
    keys.map_values(|k: &str| k@)
}

/// The entries of a table stand for their keys and values, one by one.
proof fn lemma_table_model(items: Seq<(String, Manifest)>)
    ensures
        table_model(items).len() == items.len(),
        forall|i: int|
            0 <= i < items.len() ==> #[trigger] table_model(items)[i] == (
                items[i].0@,
                items[i].1.model(),
            ),
    decreases items.len(),
{
    if items.len() > 0 {
        lemma_table_model(items.drop_last());
        assert forall|i: int| 0 <= i < items.len() implies #[trigger] table_model(items)[i] == (
            items[i].0@,
            items[i].1.model(),
        ) by {
            if i < items.len() - 1 {
                assert(items.drop_last()[i] == items[i]);
            }
        }
    }
}

proof fn lemma_entry_skip(items: Seq<(Seq<char>, ManifestView)>, key: Seq<char>, i: int)
    requires
        0 <= i <= items.len(),
        forall|j: int| 0 <= j < i ==> (#[trigger] items[j]).0 != key,
    ensures
        entry_of(items, key) == entry_of(items.skip(i), key),
    decreases i,
{
    if i > 0 {
        assert forall|j: int| 0 <= j < i - 1 implies (#[trigger] items.skip(1)[j]).0 != key by {
            assert(items[j + 1].0 != key);
        }
        lemma_entry_skip(items.skip(1), key, i - 1);
        assert(items.skip(1).skip(i - 1) == items.skip(i));
        assert(items[0].0 != key);
    } else {
        assert(items.skip(0) == items);
    }
}

/// The value of `key` in a table.
fn get_child<'a>(m: Option<&'a Manifest>, key: &str) -> (r: Option<&'a Manifest>)
    ensures
        behind(r) == child(behind(m), key@),
{
    if let Some(Manifest::Table(items)) = m {
        let ghost model = table_model(items@);
        proof {
            lemma_table_model(items@);
        }
        let mut i: usize = 0;
        while i < items.len()
            invariant
                i <= items@.len(),
                model == table_model(items@),
                model.len() == items@.len(),
                forall|j: int|
                    0 <= j < items@.len() ==> #[trigger] model[j] == (
                        items@[j].0@,
                        items@[j].1.model(),
                    ),
                behind(m) == Some(ManifestView::Table(model)),
                forall|j: int| 0 <= j < i ==> (#[trigger] model[j]).0 != key@,
            decreases items@.len() - i,
        {
            if same_text(items[i].0.as_str(), key) {
                proof {
                    lemma_entry_skip(model, key@, i as int);
                    assert(model.skip(i as int)[0] == model[i as int]);
                }
                return Some(&items[i].1);
            }
            i += 1;
        }
        proof {
            lemma_entry_skip(model, key@, i as int);
        }
        None
    } else {
        None
    }
}

/// Whether one of the texts is `key`.
fn is_one_of(keys: &Vec<&str>, key: &str) -> (r: bool)
    ensures
        r == str_texts(keys@).contains(key@),
{
    let mut i: usize = 0;
    while i < keys.len()
        invariant
            i <= keys@.len(),
            forall|j: int| 0 <= j < i ==> str_texts(keys@)[j] != key@,
        decreases keys@.len() - i,
    {
        if same_text(keys[i], key) {
            assert(str_texts(keys@)[i as int] == key@);
            return true;
        }
        i += 1;
    }
    false
}

/// Adds an issue to a report.
pub fn push_issue(report: &mut ProjectLintReport, code: &'static str, path: String, message: String)
    ensures
        final(report).fixed == old(report).fixed,
        issue_views(final(report).issues@) == issue_views(old(report).issues@).push(
            (code@, path@, message@),
        ),
{
    let issue = ProjectLintIssue { code, path, message };
    proof {
        assert(issue_views(report.issues@.push(issue)) == issue_views(report.issues@).push(
            issue_view(issue),
        ));
    }
    report.issues.push(issue);
}

/// Adds an issue for each unknown key of a value that is a table.
fn push_unknown_table_keys(
    table: Option<&Manifest>,
    prefix: &str,
    allowed: &Vec<&str>,
    report: &mut ProjectLintReport,
)
    ensures
        final(report).fixed == old(report).fixed,
        issue_views(final(report).issues@) == issue_views(old(report).issues@) + table_issues(
            behind(table),
            prefix@,
            str_texts(allowed@),
        ),
{
    let ghost before = issue_views(report.issues@);
    if let Some(Manifest::Table(items)) = table {
        let mut i: usize = 0;
        while i < items.len()
            invariant
                i <= items@.len(),
                report.fixed == old(report).fixed,
                issue_views(report.issues@) == before + unknown_keys(
                    table_model(items@.take(i as int)),
                    prefix@,
                    str_texts(allowed@),
                ),
            decreases items@.len() - i,
        {
            proof {
                assert(items@.take(i + 1).drop_last() == items@.take(i as int));
                let part = table_model(items@.take(i + 1));
                assert(part.drop_last() == table_model(items@.take(i as int)));
            }
            let key = items[i].0.as_str();
            if !is_one_of(allowed, key) {
                let path: String = if prefix.is_empty() {
                    key.to_owned()
                } else {
                    let mut p = prefix.to_owned();
                    p.append(".");
                    p.append(key);
                    p
                };
                push_issue(
                    report,
                    constants::ERROR_CODE_CFG_PROJECT_UNKNOWN_KEY,
                    path,
                    "unknown key".to_owned(),
                );
            }
            i += 1;
        }
        assert(items@.take(items@.len() as int) == items@);
    }
}

proof fn lemma_array_len(items: Seq<Manifest>)
    ensures
        array_model(items).len() == items.len(),
    decreases items.len(),
{
    if items.len() > 0 {
        lemma_array_len(items.drop_last());
    }
}

/// Adds the issues of the tables among the filters.
fn push_filter_issues(filters: Option<&Manifest>, report: &mut ProjectLintReport)
    ensures
        final(report).fixed == old(report).fixed,
        issue_views(final(report).issues@) == issue_views(old(report).issues@) + filters_issues(
            behind(filters),
        ),
{
    let ghost before = issue_views(report.issues@);
    if let Some(Manifest::Array(items)) = filters {
        let allowed: Vec<&str> =
            vec!["name", "callback_profile", "tool", "command_pattern", "debounce_ms"];
        assert(str_texts(allowed@) == filter_keys());
        let mut i: usize = 0;
        while i < items.len()
            invariant
                i <= items@.len(),
                report.fixed == old(report).fixed,
                str_texts(allowed@) == filter_keys(),
                issue_views(report.issues@) == before + filter_issues(array_model(items@.take(i as int))),
            decreases items@.len() - i,
        {
            proof {
                assert(items@.take(i + 1).drop_last() == items@.take(i as int));
                let part = array_model(items@.take(i + 1));
                assert(part.drop_last() == array_model(items@.take(i as int)));
                lemma_array_len(items@.take(i + 1));
            }
            let mut path = "callbacks.filters[".to_owned();
            path.append(decimal_text(i as u128).as_str());
            path.append("]");
            push_unknown_table_keys(Some(&items[i]), path.as_str(), &allowed, report);
            i += 1;
        }
        assert(items@.take(items@.len() as int) == items@);
    }
}

/// Adds the issues of the callback tables named `names` in `parent`.
fn push_named_specs(
    parent: Option<&Manifest>,
    prefix: &str,
    names: &Vec<&str>,
    report: &mut ProjectLintReport,
)
    ensures
        final(report).fixed == old(report).fixed,
        issue_views(final(report).issues@) == issue_views(old(report).issues@)
            + named_specs_issues(behind(parent), prefix@, str_texts(names@)),
{
    let ghost before = issue_views(report.issues@);
    let allowed: Vec<&str> = vec![
        "callback_profile",
        "callback_prompt_prefix",
        "callback_args",
        "callback_events",
        "events",
        "callback_vars",
        "socket",
        "timeout_ms",
    ];
    assert(str_texts(allowed@) == spec_keys());
    let mut i: usize = 0;
    while i < names.len()
        invariant
            i <= names@.len(),
            report.fixed == old(report).fixed,
            str_texts(allowed@) == spec_keys(),
            issue_views(report.issues@) == before + named_specs_issues(
                behind(parent),
                prefix@,
                str_texts(names@.take(i as int)),
            ),
        decreases names@.len() - i,
    {
        proof {
            let part = str_texts(names@.take(i + 1));
            assert(part.drop_last() == str_texts(names@.take(i as int)));
            assert(part.last() == names@[i as int]@);
        }
        let mut path = prefix.to_owned();
        path.append(names[i]);
        push_unknown_table_keys(get_child(parent, names[i]), path.as_str(), &allowed, report);
        i += 1;
    }
    assert(names@.take(names@.len() as int) == names@);
}

/// Adds the issues of `callbacks`.
fn push_callbacks_issues(callbacks: Option<&Manifest>, report: &mut ProjectLintReport)
    ensures
        final(report).fixed == old(report).fixed,
        issue_views(final(report).issues@) == issue_views(old(report).issues@) + callbacks_issues(
            behind(callbacks),
        ),
{
    let callbacks_allowed: Vec<&str> =
        vec!["env", "profiles", "filters", "worker", "foreman", "bubble_up", "lifecycle"];
    assert(str_texts(callbacks_allowed@) == callbacks_keys());
    push_unknown_table_keys(callbacks, "callbacks", &callbacks_allowed, report);
    push_filter_issues(get_child(callbacks, "filters"), report);
    let spec_names: Vec<&str> = vec!["worker", "foreman", "bubble_up"];
    assert(str_texts(spec_names@) == seq!["worker"@, "foreman"@, "bubble_up"@]);
    push_named_specs(callbacks, "callbacks.", &spec_names, report);
    let lifecycle = get_child(callbacks, "lifecycle");
    let lifecycle_allowed: Vec<&str> =
        vec!["start", "compact", "stop", "worker_completed", "worker_aborted"];
    assert(str_texts(lifecycle_allowed@) == lifecycle_keys());
    push_unknown_table_keys(lifecycle, "callbacks.lifecycle", &lifecycle_allowed, report);
    push_named_specs(lifecycle, "callbacks.lifecycle.", &lifecycle_allowed, report);
}

/// Adds the issues of `jobs`.
fn push_jobs_issues(jobs: Option<&Manifest>, report: &mut ProjectLintReport)
    ensures
        final(report).fixed == old(report).fixed,
        issue_views(final(report).issues@) == issue_views(old(report).issues@) + jobs_issues(
            behind(jobs),
        ),
{
    let jobs_allowed: Vec<&str> = vec!["defaults"];
    assert(str_texts(jobs_allowed@) == jobs_keys());
    push_unknown_table_keys(jobs, "jobs", &jobs_allowed, report);
    let defaults_allowed: Vec<&str> =
        vec!["min_turns", "strategy", "worktree_mode", "merge_strategy", "base_branch"];
    assert(str_texts(defaults_allowed@) == defaults_keys());
    push_unknown_table_keys(get_child(jobs, "defaults"), "jobs.defaults", &defaults_allowed, report);
}

/// Adds an issue for each key that a manifest may not hold.
pub fn validate_unknown_keys(manifest: &Manifest, report: &mut ProjectLintReport)
    ensures
        final(report).fixed == old(report).fixed,
        issue_views(final(report).issues@) == issue_views(old(report).issues@) + manifest_issues(
            manifest@,
        ),
{
    let root = Some(manifest);
    match manifest {
        Manifest::Table(_) => {},
        _ => {
            push_issue(
                report,
                constants::ERROR_CODE_CFG_PROJECT_PARSE,
                "root".to_owned(),
                "project config root must be a TOML table".to_owned(),
            );
            return;
        },
    }
    let root_allowed: Vec<&str> =
        vec!["name", "prompts", "callbacks", "policy", "jobs", "validation"];
    assert(str_texts(root_allowed@) == root_keys());
    proof {
        reveal_strlit("");
    }
    assert(""@ == Seq::<char>::empty());
    push_unknown_table_keys(root, "", &root_allowed, report);
    let prompts_allowed: Vec<&str> =
        vec!["foreman_file", "worker_file", "runbook_file", "handoff_file"];
    assert(str_texts(prompts_allowed@) == prompts_keys());
    push_unknown_table_keys(get_child(root, "prompts"), "prompts", &prompts_allowed, report);
    push_callbacks_issues(get_child(root, "callbacks"), report);
    let policy_allowed: Vec<&str> = vec!["bubble_up_events", "compact_after_turns"];
    assert(str_texts(policy_allowed@) == policy_keys());
    push_unknown_table_keys(get_child(root, "policy"), "policy", &policy_allowed, report);
    push_jobs_issues(get_child(root, "jobs"), report);
    let validation_allowed: Vec<&str> = vec!["on_turn", "on_complete", "fail_action", "max_retries"];
    assert(str_texts(validation_allowed@) == validation_keys());
    push_unknown_table_keys(
        get_child(root, "validation"),
        "validation",
        &validation_allowed,
        report,
    );
}

/// Whether a manifest's root has the entry `key`.
pub fn has_root_key(manifest: &Manifest, key: &str) -> (r: bool)
    ensures
        r == child(Some(manifest@), key@) is Some,
{
    get_child(Some(manifest), key).is_some()
}

/// A key is reported as unknown exactly where it is not among the keys that may be, with the path
/// to it.
pub proof fn law_unknown_keys_are_reported(
    items: Seq<(Seq<char>, ManifestView)>,
    key: Seq<char>,
    value: ManifestView,
    prefix: Seq<char>,
    allowed: Seq<Seq<char>>,
)
    ensures
        unknown_keys(Seq::<(Seq<char>, ManifestView)>::empty(), prefix, allowed).len() == 0,
        allowed.contains(key) ==> unknown_keys(items.push((key, value)), prefix, allowed)
            == unknown_keys(items, prefix, allowed),
        !allowed.contains(key) && prefix.len() > 0 ==> unknown_keys(
            items.push((key, value)),
            prefix,
            allowed,
        ) == unknown_keys(items, prefix, allowed).push(
            ("CFG_PROJECT_UNKNOWN_KEY"@, prefix + "."@ + key, "unknown key"@),
        ),
        !allowed.contains(key) && prefix.len() == 0 ==> unknown_keys(
            items.push((key, value)),
            prefix,
            allowed,
        ) == unknown_keys(items, prefix, allowed).push(
            ("CFG_PROJECT_UNKNOWN_KEY"@, key, "unknown key"@),
        ),
{
    assert(items.push((key, value)).drop_last() == items);
}

/// The keys at the top are those of a project, and no others.
pub proof fn law_projects_have_these_keys(key: Seq<char>)
    ensures
        root_keys().contains(key) <==> key == "name"@ || key == "prompts"@ || key == "callbacks"@
            || key == "policy"@ || key == "jobs"@ || key == "validation"@,
        lifecycle_keys().contains(key) <==> key == "start"@ || key == "compact"@ || key == "stop"@
            || key == "worker_completed"@ || key == "worker_aborted"@,
        prompts_keys().contains(key) <==> key == "foreman_file"@ || key == "worker_file"@ || key
            == "runbook_file"@ || key == "handoff_file"@,
        validation_keys().contains(key) <==> key == "on_turn"@ || key == "on_complete"@ || key
            == "fail_action"@ || key == "max_retries"@,
        defaults_keys().contains(key) <==> key == "min_turns"@ || key == "strategy"@ || key
            == "worktree_mode"@ || key == "merge_strategy"@ || key == "base_branch"@,
        filter_keys().contains(key) <==> key == "name"@ || key == "callback_profile"@ || key
            == "tool"@ || key == "command_pattern"@ || key == "debounce_ms"@,
{
    let r = root_keys();
    assert(r[0] == "name"@ && r[1] == "prompts"@ && r[2] == "callbacks"@ && r[3] == "policy"@
        && r[4] == "jobs"@ && r[5] == "validation"@);
    let l = lifecycle_keys();
    assert(l[0] == "start"@ && l[1] == "compact"@ && l[2] == "stop"@ && l[3] == "worker_completed"@
        && l[4] == "worker_aborted"@);
    let p = prompts_keys();
    assert(p[0] == "foreman_file"@ && p[1] == "worker_file"@ && p[2] == "runbook_file"@ && p[3]
        == "handoff_file"@);
    let v = validation_keys();
    assert(v[0] == "on_turn"@ && v[1] == "on_complete"@ && v[2] == "fail_action"@ && v[3]
        == "max_retries"@);
    let d = defaults_keys();
    assert(d[0] == "min_turns"@ && d[1] == "strategy"@ && d[2] == "worktree_mode"@ && d[3]
        == "merge_strategy"@ && d[4] == "base_branch"@);
    let f = filter_keys();
    assert(f[0] == "name"@ && f[1] == "callback_profile"@ && f[2] == "tool"@ && f[3]
        == "command_pattern"@ && f[4] == "debounce_ms"@);
}

/// A manifest that is no table is one issue; of a table every part is looked at, so that one
/// without an issue has none in any part.
pub proof fn law_every_part_is_looked_at(m: ManifestView)
    ensures
        !(m is Table) ==> manifest_issues(m).len() == 1 && manifest_issues(m)[0].0
            == "CFG_PROJECT_PARSE"@,
        m is Table && manifest_issues(m).len() == 0 ==> {
            let root = Some(m);
            &&& unknown_keys(m->Table_0, Seq::empty(), root_keys()).len() == 0
            &&& table_issues(child(root, "prompts"@), "prompts"@, prompts_keys()).len() == 0
            &&& table_issues(child(root, "callbacks"@), "callbacks"@, callbacks_keys()).len() == 0
            &&& table_issues(child(root, "policy"@), "policy"@, policy_keys()).len() == 0
            &&& table_issues(child(root, "jobs"@), "jobs"@, jobs_keys()).len() == 0
            &&& table_issues(
                child(child(root, "jobs"@), "defaults"@),
                "jobs.defaults"@,
                defaults_keys(),
            ).len() == 0
            &&& table_issues(child(root, "validation"@), "validation"@, validation_keys()).len()
                == 0
            &&& table_issues(
                child(child(root, "callbacks"@), "lifecycle"@),
                "callbacks.lifecycle"@,
                lifecycle_keys(),
            ).len() == 0
            &&& filters_issues(child(child(root, "callbacks"@), "filters"@)).len() == 0
        },
{
}

/// The value of a key is the first that stands under it; only a table has any.
pub proof fn law_values_stand_under_their_keys(
    items: Seq<(Seq<char>, ManifestView)>,
    key: Seq<char>,
    value: ManifestView,
    other: Seq<char>,
)
    ensures
        child(Some(ManifestView::Table(seq![(key, value)] + items)), key) == Some(value),
        other != key ==> child(Some(ManifestView::Table(seq![(key, value)] + items)), other)
            == child(Some(ManifestView::Table(items)), other),
        child(None, key) is None,
        !(value is Table) ==> child(Some(value), key) is None,
{
    let all = seq![(key, value)] + items;
    assert(all[0] == (key, value));
    assert(all.skip(1) == items);
}

/// The keys of each filter are looked at, under its place in the list.
pub proof fn law_each_filter_is_looked_at(items: Seq<ManifestView>, item: ManifestView)
    ensures
        filter_issues(Seq::<ManifestView>::empty()).len() == 0,
        filter_issues(items.push(item)) == filter_issues(items) + table_issues(
            Some(item),
            "callbacks.filters["@ + text::decimal(items.len()) + "]"@,
            filter_keys(),
        ),
{
    assert(items.push(item).drop_last() == items);
}

/// The callbacks of the workers, of the foreman and of what is passed up, and those of each step,
/// are looked at under their own paths.
pub proof fn law_each_callback_is_looked_at(callbacks: ManifestView)
    ensures
        callbacks_issues(Some(callbacks)).len() == 0 ==> {
            let c = Some(callbacks);
            let life = child(c, "lifecycle"@);
            &&& table_issues(child(c, "worker"@), "callbacks.worker"@, spec_keys()).len() == 0
            &&& table_issues(child(c, "foreman"@), "callbacks.foreman"@, spec_keys()).len() == 0
            &&& table_issues(child(c, "bubble_up"@), "callbacks.bubble_up"@, spec_keys()).len() == 0
            &&& table_issues(child(life, "start"@), "callbacks.lifecycle.start"@, spec_keys()).len()
                == 0
            &&& table_issues(
                child(life, "worker_aborted"@),
                "callbacks.lifecycle.worker_aborted"@,
                spec_keys(),
            ).len() == 0
        },
{
    let c = Some(callbacks);
    let life = child(c, "lifecycle"@);
    let names = seq!["worker"@, "foreman"@, "bubble_up"@];
    if callbacks_issues(Some(callbacks)).len() == 0 {
        lemma_named_spec_is_looked_at(c, "callbacks."@, names, 0);
        lemma_named_spec_is_looked_at(c, "callbacks."@, names, 1);
        lemma_named_spec_is_looked_at(c, "callbacks."@, names, 2);
        lemma_named_spec_is_looked_at(life, "callbacks.lifecycle."@, lifecycle_keys(), 0);
        lemma_named_spec_is_looked_at(life, "callbacks.lifecycle."@, lifecycle_keys(), 4);
        reveal_strlit("callbacks.");
        reveal_strlit("callbacks.lifecycle.");
        reveal_strlit("worker");
        reveal_strlit("foreman");
        reveal_strlit("bubble_up");
        reveal_strlit("start");
        reveal_strlit("worker_aborted");
        reveal_strlit("callbacks.worker");
        reveal_strlit("callbacks.foreman");
        reveal_strlit("callbacks.bubble_up");
        reveal_strlit("callbacks.lifecycle.start");
        reveal_strlit("callbacks.lifecycle.worker_aborted");
        assert("callbacks."@ + "worker"@ == "callbacks.worker"@);
        assert("callbacks."@ + "foreman"@ == "callbacks.foreman"@);
        assert("callbacks."@ + "bubble_up"@ == "callbacks.bubble_up"@);
        assert("callbacks.lifecycle."@ + "start"@ == "callbacks.lifecycle.start"@);
        assert("callbacks.lifecycle."@ + "worker_aborted"@
            == "callbacks.lifecycle.worker_aborted"@);
    }
}

proof fn lemma_named_spec_is_looked_at(
    parent: Option<ManifestView>,
    prefix: Seq<char>,
    names: Seq<Seq<char>>,
    k: int,
)
    requires
        0 <= k < names.len(),
    ensures
        named_specs_issues(parent, prefix, names).len() == 0 ==> table_issues(
            child(parent, names[k]),
            prefix + names[k],
            spec_keys(),
        ).len() == 0,
    decreases names.len(),
{
    if k < names.len() - 1 {
        lemma_named_spec_is_looked_at(parent, prefix, names.drop_last(), k);
        assert(names.drop_last()[k] == names[k]);
    }
}

} // verus!

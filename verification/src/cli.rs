//! What the program decides around the service: what it runs, where its files lie, and what it
//! tells the person who started it.
use vstd::prelude::*;

use crate::auth;
use crate::auth::to_lowercase;
use crate::config::{CallbackProfile, ServiceConfig};
use crate::constants;
use crate::error::ForemanError;
use crate::ids;
use crate::ids::id_text;
use crate::json;
use crate::json::Json;
use crate::json_build;
use crate::json_build::{push_entry, unsigned_json};
use crate::lint;
use crate::lint::coded_error;
use crate::models::JobEventEnvelope;
use crate::paths;
use crate::paths::{file_name, join_path, parent};
use crate::sorting;
use crate::sorting::sort_texts;
use crate::text;
use crate::text::{same_text, trim};
use crate::text_map::TextMap;
use crate::text_search;
use crate::text_search::{contains, decimal_text, join, parse_unsigned, split_whitespace};

verus! {

/// What the program is asked to do.
#[derive(Debug, Clone, Copy, PartialEq, Eq, Structural)]
pub enum RunMode {
    InitProject,
    ValidateConfig,
    ProjectLint,
    Doctor,
    ConfigShowResolved,
    Serve,
}

/// What the program does: the first that it is asked for, and else the service.
pub fn run_mode(
    init_project: bool,
    validate_config: bool,
    project_lint: bool,
    doctor: bool,
    config_show_resolved: bool,
) -> (r: RunMode)
    ensures
        r == (if init_project {
            RunMode::InitProject
        } else if validate_config {
            RunMode::ValidateConfig
        } else if project_lint {
            RunMode::ProjectLint
        } else if doctor {
            RunMode::Doctor
        } else if config_show_resolved {
            RunMode::ConfigShowResolved
        } else {
            RunMode::Serve
        }),
{
    if init_project {
        RunMode::InitProject
    } else if validate_config {
        RunMode::ValidateConfig
    } else if project_lint {
        RunMode::ProjectLint
    } else if doctor {
        RunMode::Doctor
    } else if config_show_resolved {
        RunMode::ConfigShowResolved
    } else {
        RunMode::Serve
    }
}

/// A path without its last part, or a path that stands in for it where there is none.
pub open spec fn directory_of(path: Seq<char>) -> Seq<char> {
    match paths::parent_of(path) {
        Some(p) => p,
        None => constants::DEFAULT_WORKING_DIRECTORY@,
    }
}

/// The directory in which a file lies.
pub fn directory(path: &str) -> (r: String)
    ensures
        r@ == directory_of(path@),
{
    match parent(path) {
        Some(p) => p,
        None => constants::DEFAULT_WORKING_DIRECTORY.to_owned(),
    }
}

/// Where the service's configuration lies where no other place is asked for.
pub fn default_service_config_path() -> (r: String)
    ensures
        r@ == constants::DEFAULT_SERVICE_CONFIG_PATH@,
{
    constants::DEFAULT_SERVICE_CONFIG_PATH.to_owned()
}

/// Where the state of the service is kept: where it is asked for, else at the usual place.
pub fn resolve_state_path(asked: Option<String>) -> (r: String)
    ensures
        r@ == (match asked {
            Some(p) => p@,
            None => constants::DEFAULT_STATE_PATH@,
        }),
{
    match asked {
        Some(p) => p,
        None => constants::DEFAULT_STATE_PATH.to_owned(),
    }
}

/// Where the service listens: at the path that is asked for, else beside its state. Names the
/// directory that must be there for that.
pub fn resolve_socket_path(socket_path: Option<String>, state_path: &str) -> (r: (
    String,
    Option<String>,
))
    ensures
        match socket_path {
            Some(p) => r.0 == p && r.1 is None,
            None => r.0@ == paths::below(
                directory_of(state_path@),
                constants::FOREMAN_SOCKET_FILENAME@,
            ) && text::opt_text(r.1) == Some(directory_of(state_path@)),
        },
{
    match socket_path {
        Some(p) => (p, None),
        None => {
            let dir = directory(state_path);
            (join_path(dir.as_str(), constants::FOREMAN_SOCKET_FILENAME), Some(dir))
        },
    }
}

/// Whether what lies where the service will listen may be removed.
pub fn check_socket_path(path: &str, is_file: bool, is_socket: bool) -> (r: Result<(), ForemanError>)
    ensures
        match r {
            Ok(_) => is_file || is_socket,
            Err(e) => !is_file && !is_socket && e@ == seq![
                "socket path '"@ + path@ + "' exists and is not a regular file or socket"@,
            ],
        },
{
    if is_file || is_socket {
        return Ok(());
    }
    let mut message = "socket path '".to_owned();
    message.append(path);
    message.append("' exists and is not a regular file or socket");
    Err(ForemanError::new(message))
}

/// What helps against an error, by words in its text.
pub open spec fn hint_for(lower: Seq<char>) -> Option<Seq<char>> {
    if text::has_text(lower, "address already in use"@) {
        Some(
            "socket is already in use; remove the stale socket file or choose a different --socket-path"@,
        )
    } else if text::has_text(lower, "active pid"@) {
        Some(
            "another foreman process is running; stop it first or retry with --force for crash recovery"@,
        )
    } else if text::has_text(lower, "failed to bind"@) {
        Some(
            "failed to bind socket; check parent directory permissions and whether the path is writable"@,
        )
    } else {
        None
    }
}

/// What helps against an error, by words in its text in small letters.
pub fn hint_for_text(lower: &str) -> (r: Option<&'static str>)
    ensures
        match hint_for(lower@) {
            Some(hint) => r matches Some(h) && h@ == hint,
            None => r is None,
        },
{
    if contains(lower, "address already in use") {
        return Some(
            "socket is already in use; remove the stale socket file or choose a different --socket-path",
        );
    }
    if contains(lower, "active pid") {
        return Some(
            "another foreman process is running; stop it first or retry with --force for crash recovery",
        );
    }
    if contains(lower, "failed to bind") {
        return Some(
            "failed to bind socket; check parent directory permissions and whether the path is writable",
        );
    }
    None
}

/// What helps against an error, by words in its text in any case.
pub fn error_hint(full_message: &str) -> (r: Option<&'static str>)
    ensures
        match hint_for(auth::unicode_lower(full_message@)) {
            Some(hint) => r matches Some(h) && h@ == hint,
            None => r is None,
        },
        vstd::utf8::is_ascii_chars(full_message@) ==> match hint_for(
            text::ascii_lower(full_message@),
        ) {
            Some(hint) => r matches Some(h) && h@ == hint,
            None => r is None,
        },
{
    hint_for_text(to_lowercase(full_message).as_str())
}

/// The path of the file that says which process listens at a socket.
pub open spec fn lock_path_of(socket_path: Seq<char>) -> Seq<char> {
    let name = match paths::last_part(socket_path) {
        Some(n) => n + ".lock"@,
        None => constants::FOREMAN_LOCK_FILENAME@,
    };
    paths::below(directory_of(socket_path), name)
}

/// The path of the file that says which process listens at a socket.
pub fn lock_path(socket_path: &str) -> (r: String)
    ensures
        r@ == lock_path_of(socket_path@),
{
    let name = match file_name(socket_path) {
        Some(n) => {
            let mut name = n;
            name.append(".lock");
            name
        },
        None => constants::FOREMAN_LOCK_FILENAME.to_owned(),
    };
    join_path(directory(socket_path).as_str(), name.as_str())
}

/// The process that the text of a lock file names.
pub open spec fn pid_in(contents: Seq<char>) -> Option<nat> {
    text_search::number_in(text::trimmed(contents), u32::MAX as nat)
}

/// The process that the text of a lock file names.
pub fn lock_holder(contents: &str) -> (r: Option<u32>)
    ensures
        match pid_in(contents@) {
            Some(n) => r matches Some(pid) && pid == n,
            None => r is None,
        },
{
    match parse_unsigned(trim(contents).as_str(), u32::MAX as u64) {
        Some(n) => Some(n as u32),
        None => None,
    }
}

/// Whether a lock file that is there may be taken over: where it names no process, where the
/// process is gone, or by force.
pub fn acquire_pid_lockfile(
    socket_path: &str,
    lock_path: &str,
    holder: Option<u32>,
    alive: bool,
    force: bool,
) -> (r: Result<(), ForemanError>)
    ensures
        match r {
            Ok(_) => holder is None || !alive || force,
            Err(e) => alive && !force && (holder matches Some(pid) && e@ == seq![
                "another foreman instance is running for socket '"@ + socket_path@
                    + "'; lockfile '"@ + lock_path@ + "' has active PID "@ + text::decimal(
                    pid as nat,
                ),
            ]),
        },
{
    if let Some(pid) = holder {
        if alive && !force {
            let mut message = "another foreman instance is running for socket '".to_owned();
            message.append(socket_path);
            message.append("'; lockfile '");
            message.append(lock_path);
            message.append("' has active PID ");
            message.append(decimal_text(pid as u128).as_str());
            return Err(ForemanError::new(message));
        }
    }
    Ok(())
}

/// Whether a lock file is still that of a process.
pub fn releases_lock(contents: &str, pid: u32) -> (r: bool)
    ensures
        r == (pid_in(contents@) == Some(pid as nat)),
{
    match lock_holder(contents) {
        Some(holder) => holder == pid,
        None => false,
    }
}

/// Whether a word is a version: digits and dots.
pub open spec fn is_version(word: Seq<char>) -> bool {
    &&& word.len() > 0
    &&& forall|i: int| 0 <= i < word.len() ==> ('0' <= #[trigger] word[i] <= '9') || word[i] == '.'
}

/// The first of the words that is a version.
pub open spec fn first_version(words: Seq<Seq<char>>) -> Option<Seq<char>>
    decreases words.len(),
{
    if words.len() == 0 {
        None
    } else {
        json::either(
            first_version(words.drop_last()),
            if is_version(words.last()) {
                Some(words.last())
            } else {
                None
            },
        )
    }
}

fn is_version_word(word: &str) -> (r: bool)
    ensures
        r == is_version(word@),
{
    let chars = text::chars_of(word);
    if chars.len() == 0 {
        return false;
    }
    let mut i: usize = 0;
    while i < chars.len()
        invariant
            i <= chars@.len(),
            chars@ == word@,
            forall|j: int| 0 <= j < i ==> ('0' <= #[trigger] word@[j] <= '9') || word@[j] == '.',
        decreases chars@.len() - i,
    {
        let c: char = chars[i];
        if !('0' <= c && c <= '9') && c != '.' {
            assert(!(('0' <= word@[i as int] <= '9') || word@[i as int] == '.'));
            return false;
        }
        i += 1;
    }
    true
}

proof fn lemma_first_version(words: Seq<Seq<char>>, n: int)
    requires
        0 <= n <= words.len(),
        first_version(words.take(n)) is Some,
    ensures
        first_version(words) == first_version(words.take(n)),
    decreases words.len(),
{
    if n < words.len() {
        assert(words.drop_last().take(n) == words.take(n));
        lemma_first_version(words.drop_last(), n);
    } else {
        assert(words.take(n) == words);
    }
}

/// The first word of a text that is a version.
pub fn extract_codex_version(s: &str) -> (r: Option<String>)
    ensures
        text::opt_text(r) == first_version(text::words(s@)),
{
    let words = split_whitespace(s);
    let ghost all = text::words(s@);
    let mut i: usize = 0;
    assert(all.take(0) == Seq::<Seq<char>>::empty());
    while i < words.len()
        invariant
            i <= words@.len(),
            all == text::texts(words@),
            all == text::words(s@),
            first_version(all.take(i as int)) is None,
        decreases words@.len() - i,
    {
        proof {
            assert(all.take(i + 1).drop_last() == all.take(i as int));
            assert(all.take(i + 1).last() == words@[i as int]@);
        }
        if is_version_word(words[i].as_str()) {
            proof {
                lemma_first_version(all, i + 1);
            }
            return Some(words[i].clone());
        }
        i += 1;
    }
    assert(all.take(i as int) == all);
    None
}

/// What came of asking a program for its version.
#[derive(Debug, Clone)]
pub struct VersionOutput {
    pub success: bool,
    /// How the program ended, in words.
    pub status: String,
    pub stdout: String,
    pub stderr: String,
}

/// The version that a program names, on its output or else among its errors.
pub open spec fn detected_version(o: VersionOutput) -> Option<Seq<char>> {
    json::either(
        first_version(text::words(o.stdout@)),
        first_version(text::words(o.stderr@)),
    )
}

/// Why the version of a program is not taken.
pub open spec fn version_problem(expected: Seq<char>, output: Result<VersionOutput, String>) -> Option<
    Seq<Seq<char>>,
> {
    match output {
        Err(cause) => Some(seq!["failed to execute codex binary for version check"@, cause@]),
        Ok(o) => if !o.success {
            Some(seq!["codex --version failed with exit code: "@ + o.status@])
        } else {
            match detected_version(o) {
                Some(v) => if v == expected {
                    None
                } else {
                    Some(
                        seq![
                            "unexpected codex version: expected="@ + expected + ", detected="@ + v,
                        ],
                    )
                },
                None => Some(
                    seq![
                        "failed to parse codex version from output: '"@ + text::trimmed(o.stdout@)
                            + "'"@,
                    ],
                ),
            }
        },
    }
}

/// Whether the app server has the version that is expected of it.
pub fn verify_codex_binary_version(expected: &str, output: Result<VersionOutput, String>) -> (r:
    Result<(), ForemanError>)
    ensures
        match version_problem(expected@, output) {
            Some(chain) => r matches Err(e) && e@ == chain,
            None => r is Ok,
        },
{
    let o = match output {
        Ok(o) => o,
        Err(cause) => {
            let e = ForemanError::new(cause).context(
                "failed to execute codex binary for version check".to_owned(),
            );
            assert(e@ == seq!["failed to execute codex binary for version check"@, cause@]);
            return Err(e);
        },
    };
    if !o.success {
        let mut message = "codex --version failed with exit code: ".to_owned();
        message.append(o.status.as_str());
        return Err(ForemanError::new(message));
    }
    let detected = match extract_codex_version(o.stdout.as_str()) {
        Some(v) => Some(v),
        None => extract_codex_version(o.stderr.as_str()),
    };
    match detected {
        Some(v) => {
            if same_text(v.as_str(), expected) {
                Ok(())
            } else {
                let mut message = "unexpected codex version: expected=".to_owned();
                message.append(expected);
                message.append(", detected=");
                message.append(v.as_str());
                Err(ForemanError::new(message))
            }
        },
        None => {
            let mut message = "failed to parse codex version from output: '".to_owned();
            message.append(trim(o.stdout.as_str()).as_str());
            message.append("'");
            Err(ForemanError::new(message))
        },
    }
}

/// Why a path is not that of a project's manifest.
pub open spec fn project_path_problem(path: Option<Seq<char>>, is_file: bool) -> Option<Seq<char>> {
    match path {
        None => Some(
            lint::coded(
                constants::ERROR_CODE_CFG_PROJECT_ARG_REQUIRED@,
                "--project <path-to-project.toml> is required"@,
            ),
        ),
        Some(p) => if !is_file {
            Some(
                lint::coded(
                    constants::ERROR_CODE_CFG_PROJECT_PATH_INVALID@,
                    "project path '"@ + p + "' must point to a file"@,
                ),
            )
        } else if paths::last_part(p) != Some(constants::PROJECT_CONFIG_FILE@) {
            Some(
                lint::coded(
                    constants::ERROR_CODE_CFG_PROJECT_PATH_INVALID@,
                    "project path '"@ + p + "' must target '"@ + constants::PROJECT_CONFIG_FILE@
                        + "'"@,
                ),
            )
        } else {
            None
        },
    }
}

/// The path of a project's manifest, where it is one.
pub fn resolve_required_project_toml_path(path: Option<String>, is_file: bool) -> (r: Result<
    String,
    ForemanError,
>)
    ensures
        match project_path_problem(text::opt_text(path), is_file) {
            Some(message) => r matches Err(e) && e@ == seq![message],
            None => r matches Ok(p) && path == Some(p),
        },
{
    let path = match path {
        Some(path) => path,
        None => {
            return Err(
                coded_error(
                    constants::ERROR_CODE_CFG_PROJECT_ARG_REQUIRED,
                    "--project <path-to-project.toml> is required",
                ),
            );
        },
    };
    let mut message = "project path '".to_owned();
    message.append(path.as_str());
    if !is_file {
        message.append("' must point to a file");
        return Err(
            coded_error(constants::ERROR_CODE_CFG_PROJECT_PATH_INVALID, message.as_str()),
        );
    }
    let named = match file_name(path.as_str()) {
        Some(name) => same_text(name.as_str(), constants::PROJECT_CONFIG_FILE),
        None => false,
    };
    if !named {
        message.append("' must target '");
        message.append(constants::PROJECT_CONFIG_FILE);
        message.append("'");
        return Err(
            coded_error(constants::ERROR_CODE_CFG_PROJECT_PATH_INVALID, message.as_str()),
        );
    }
    Ok(path)
}

/// What `Debug` writes of a list of texts.
pub uninterp spec fn debug_list(list: Seq<Seq<char>>) -> Seq<char>;

/// The `Debug` form of a `Vec<String>`.
#[verifier::external_body]
fn write_debug_list(list: &Vec<String>) -> (r: String)
    ensures
        r@ == debug_list(text::texts(list@)),
{
    format!("{:?}", list)
}

/// The events of a profile as they are printed, given how a list of them is written.
pub open spec fn shown_events(written: Option<Seq<char>>) -> Seq<char> {
    match written {
        Some(list) => "Some("@ + list + ")"@,
        None => "None"@,
    }
}

/// The lists of a profile as they are printed.
pub open spec fn written_events(events: Option<Vec<String>>) -> Option<Seq<char>> {
    match events {
        Some(list) => Some(debug_list(text::texts(list@))),
        None => None,
    }
}

/// The line that tells of a profile, given how its events and its arguments are written.
pub open spec fn profile_line(
    name: Seq<char>,
    kind: Seq<char>,
    target: Seq<char>,
    written: Option<Seq<char>>,
) -> Seq<char> {
    " - "@ + name + ": "@ + kind + " -> "@ + target + " (events: "@ + shown_events(written) + ")"@
}

/// What a command's line names: the program, and its arguments where it has some.
pub open spec fn command_target(program: Seq<char>, args: Option<Seq<char>>) -> Seq<char> {
    program + " "@ + (match args {
        Some(list) => "args:"@ + list,
        None => Seq::empty(),
    })
}

/// The line that tells of a profile.
pub open spec fn line_of(name: Seq<char>, profile: CallbackProfile) -> Seq<char> {
    match profile {
        CallbackProfile::Webhook(w) => profile_line(
            name,
            "webhook"@,
            w.url@,
            written_events(w.events),
        ),
        CallbackProfile::Command(c) => profile_line(
            name,
            "command"@,
            command_target(
                c.program@,
                if c.args@.len() == 0 {
                    None
                } else {
                    Some(debug_list(text::texts(c.args@)))
                },
            ),
            written_events(c.events),
        ),
        CallbackProfile::UnixSocket(s) => profile_line(
            name,
            "unix-socket"@,
            s.socket@,
            written_events(s.events),
        ),
    }
}

/// The line that tells of a profile, given how its events are written.
pub fn write_profile_line(name: &str, kind: &str, target: &str, written: Option<&str>) -> (r: String)
    ensures
        r@ == profile_line(
            name@,
            kind@,
            target@,
            match written {
                Some(w) => Some(w@),
                None => None,
            },
        ),
{
    let mut line = " - ".to_owned();
    line.append(name);
    line.append(": ");
    line.append(kind);
    line.append(" -> ");
    line.append(target);
    line.append(" (events: ");
    match written {
        Some(w) => {
            let mut shown = "Some(".to_owned();
            shown.append(w);
            shown.append(")");
            line.append(shown.as_str());
        },
        None => line.append("None"),
    }
    line.append(")");
    line
}

fn describe_profile(name: &str, profile: &CallbackProfile) -> (r: String)
    ensures
        r@ == line_of(name@, *profile),
{
    let events = match profile {
        CallbackProfile::Webhook(w) => &w.events,
        CallbackProfile::Command(c) => &c.events,
        CallbackProfile::UnixSocket(s) => &s.events,
    };
    let written = match events {
        Some(list) => Some(write_debug_list(list)),
        None => None,
    };
    let shown = match &written {
        Some(w) => Some(w.as_str()),
        None => None,
    };
    match profile {
        CallbackProfile::Webhook(w) => write_profile_line(name, "webhook", w.url.as_str(), shown),
        CallbackProfile::Command(c) => {
            let mut target = c.program.clone();
            target.append(" ");
            if c.args.len() > 0 {
                let mut args = "args:".to_owned();
                args.append(write_debug_list(&c.args).as_str());
                target.append(args.as_str());
            }
            assert(target@ == command_target(
                c.program@,
                if c.args@.len() == 0 {
                    None
                } else {
                    Some(debug_list(text::texts(c.args@)))
                },
            ));
            write_profile_line(name, "command", target.as_str(), shown)
        },
        CallbackProfile::UnixSocket(s) => write_profile_line(
            name,
            "unix-socket",
            s.socket.as_str(),
            shown,
        ),
    }
}

/// The lines that tell of profiles.
pub open spec fn profile_lines(items: Seq<(Seq<char>, CallbackProfile)>) -> Seq<Seq<char>> {
    items.map_values(|i: (Seq<char>, CallbackProfile)| line_of(i.0, i.1))
}

/// The lines that tell of warnings.
pub open spec fn warning_lines(warnings: Seq<Seq<char>>) -> Seq<Seq<char>> {
    if warnings.len() == 0 {
        seq!["warning: none"@]
    } else {
        warnings.map_values(|w: Seq<char>| "warning: "@ + w)
    }
}

/// The lines that tell of a configuration that is in order.
pub fn describe_config(config: &ServiceConfig, warnings: &Vec<String>) -> (r: Vec<String>)
    ensures
        text::texts(r@) == seq![
            "foreman config validated: "@ + text::decimal(config.callbacks.profiles.items().len())
                + " callback profile(s) loaded"@,
        ] + profile_lines(config.callbacks.profiles.items()) + warning_lines(
            text::texts(warnings@),
        ),
{
    let profiles = &config.callbacks.profiles;
    let ghost items = profiles.items();
    let n: usize = profiles.len();
    let mut head = "foreman config validated: ".to_owned();
    head.append(decimal_text(n as u128).as_str());
    head.append(" callback profile(s) loaded");
    let ghost head_text = head@;
    let mut out: Vec<String> = Vec::new();
    out.push(head);
    let mut i: usize = 0;
    assert(text::texts(out@) == seq![head_text] + profile_lines(items.take(0)));
    while i < n
        invariant
            i <= n,
            items == profiles.items(),
            n == items.len(),
            text::texts(out@) == seq![head_text] + profile_lines(items.take(i as int)),
        decreases n - i,
    {
        let ghost before = text::texts(out@);
        let line = describe_profile(profiles.key_at(i).as_str(), profiles.value_at(i));
        out.push(line);
        proof {
            assert(text::texts(out@) == before.push(line@));
            assert(profile_lines(items.take(i + 1)) == profile_lines(items.take(i as int)).push(
                line_of(items[i as int].0, items[i as int].1),
            ));
            assert(text::texts(out@) == seq![head_text] + profile_lines(items.take(i + 1)));
        }
        i += 1;
    }
    assert(items.take(i as int) == items);
    let ghost base = text::texts(out@);
    let ghost all = text::texts(warnings@);
    if warnings.len() == 0 {
        out.push("warning: none".to_owned());
        assert(text::texts(out@) == base + warning_lines(all));
        return out;
    }
    let ghost told = warning_lines(all);
    let mut k: usize = 0;
    assert(text::texts(out@) == base + told.take(0));
    while k < warnings.len()
        invariant
            k <= warnings@.len(),
            warnings@.len() > 0,
            all == text::texts(warnings@),
            told == warning_lines(all),
            text::texts(out@) == base + told.take(k as int),
        decreases warnings@.len() - k,
    {
        let ghost before = text::texts(out@);
        let mut line = "warning: ".to_owned();
        line.append(warnings[k].as_str());
        out.push(line);
        proof {
            assert(line@ == told[k as int]);
            assert(text::texts(out@) == before.push(line@));
            assert(told.take(k + 1) == told.take(k as int).push(line@));
            assert(text::texts(out@) == base + told.take(k + 1));
        }
        k += 1;
    }
    assert(told.take(k as int) == told);
    out
}

/// The names of profiles.
pub open spec fn names_of(items: Seq<(Seq<char>, CallbackProfile)>) -> Seq<Seq<char>> {
    items.map_values(|i: (Seq<char>, CallbackProfile)| i.0)
}

/// Names with those of a second list that are new.
pub open spec fn joined_names(first: Seq<Seq<char>>, second: Seq<Seq<char>>) -> Seq<Seq<char>>
    decreases second.len(),
{
    if second.len() == 0 {
        first
    } else {
        let before = joined_names(first, second.drop_last());
        if before.contains(second.last()) {
            before
        } else {
            before.push(second.last())
        }
    }
}

/// The names of the callback profiles that a project can use, in order.
pub fn effective_callback_profiles(
    service: &TextMap<CallbackProfile>,
    project: &TextMap<CallbackProfile>,
) -> (r: Vec<String>)
    ensures
        sorting::in_order(text::texts(r@)),
        text::texts(r@).to_multiset() == joined_names(
            names_of(service.items()),
            names_of(project.items()),
        ).to_multiset(),
{
    let ghost first = names_of(service.items());
    let ghost second = names_of(project.items());
    let mut out: Vec<String> = Vec::new();
    let n: usize = service.len();
    let mut i: usize = 0;
    assert(text::texts(out@) == first.take(0));
    while i < n
        invariant
            i <= n,
            n == service.items().len(),
            first == names_of(service.items()),
            text::texts(out@) == first.take(i as int),
        decreases n - i,
    {
        let ghost before = text::texts(out@);
        out.push(service.key_at(i).clone());
        proof {
            assert(text::texts(out@) == before.push(first[i as int]));
            assert(text::texts(out@) == first.take(i + 1));
        }
        i += 1;
    }
    assert(first.take(i as int) == first);
    let m: usize = project.len();
    let mut k: usize = 0;
    assert(second.take(0) == Seq::<Seq<char>>::empty());
    while k < m
        invariant
            k <= m,
            m == project.items().len(),
            second == names_of(project.items()),
            text::texts(out@) == joined_names(first, second.take(k as int)),
        decreases m - k,
    {
        proof {
            assert(second.take(k + 1).drop_last() == second.take(k as int));
            assert(second.take(k + 1).last() == second[k as int]);
            assert(second[k as int] == project.items()[k as int].0);
        }
        let ghost before = text::texts(out@);
        let name = project.key_at(k);
        if !text_search::list_has(&out, name.as_str()) {
            out.push(name.clone());
            assert(text::texts(out@) == before.push(second[k as int]));
        }
        k += 1;
    }
    assert(second.take(k as int) == second);
    sort_texts(&out)
}

/// The files of a new project.
pub open spec fn scaffold(include_manual: bool) -> Seq<Seq<char>> {
    let files = seq![
        constants::PROJECT_CONFIG_FILE@,
        constants::DEFAULT_FOREMAN_PROMPT_FILE@,
        constants::DEFAULT_WORKER_PROMPT_FILE@,
        constants::DEFAULT_RUNBOOK_FILE@,
        constants::DEFAULT_HANDOFF_FILE@,
    ];
    if include_manual {
        files.push(constants::DEFAULT_MANUAL_FILE@)
    } else {
        files
    }
}

/// Whether a project may be made at a path, and the files that it gets.
pub fn init_project(path: &str, present: bool, is_dir: bool, include_manual: bool) -> (r: Result<
    Vec<String>,
    ForemanError,
>)
    ensures
        match r {
            Ok(files) => (!present || is_dir) && text::texts(files@) == scaffold(include_manual),
            Err(e) => present && !is_dir && e@ == seq![
                "init path '"@ + path@ + "' exists and is not a directory"@,
            ],
        },
{
    if present && !is_dir {
        let mut message = "init path '".to_owned();
        message.append(path);
        message.append("' exists and is not a directory");
        return Err(ForemanError::new(message));
    }
    let mut files: Vec<String> = Vec::new();
    files.push(constants::PROJECT_CONFIG_FILE.to_owned());
    files.push(constants::DEFAULT_FOREMAN_PROMPT_FILE.to_owned());
    files.push(constants::DEFAULT_WORKER_PROMPT_FILE.to_owned());
    files.push(constants::DEFAULT_RUNBOOK_FILE.to_owned());
    files.push(constants::DEFAULT_HANDOFF_FILE.to_owned());
    if include_manual {
        files.push(constants::DEFAULT_MANUAL_FILE.to_owned());
    }
    assert(text::texts(files@) == scaffold(include_manual));
    Ok(files)
}

/// Whether a file of a new project may be written.
pub fn write_template_file(path: &str, present: bool, overwrite: bool) -> (r: Result<(), ForemanError>)
    ensures
        match r {
            Ok(_) => !present || overwrite,
            Err(e) => present && !overwrite && e@ == seq![
                "file '"@ + path@ + "' already exists, use --init-project-overwrite to replace"@,
            ],
        },
{
    if present && !overwrite {
        let mut message = "file '".to_owned();
        message.append(path);
        message.append("' already exists, use --init-project-overwrite to replace");
        return Err(ForemanError::new(message));
    }
    Ok(())
}

/// What is printed of a new project.
pub open spec fn scaffold_lines(path: Seq<char>, files: Seq<Seq<char>>) -> Seq<Seq<char>> {
    seq!["Initialized foreman project scaffold at: "@ + path] + files.map_values(
        |f: Seq<char>| "  - "@ + paths::below(path, f),
    ) + seq!["Use this path with POST /projects: {\"path\":\""@ + path + "\"}"@]
}

/// The lines that tell of a new project.
pub fn describe_scaffold(path: &str, files: &Vec<String>) -> (r: Vec<String>)
    ensures
        text::texts(r@) == scaffold_lines(path@, text::texts(files@)),
{
    let ghost told = text::texts(files@).map_values(
        |f: Seq<char>| "  - "@ + paths::below(path@, f),
    );
    let mut head = "Initialized foreman project scaffold at: ".to_owned();
    head.append(path);
    let ghost head_text = head@;
    let mut out: Vec<String> = Vec::new();
    out.push(head);
    let mut i: usize = 0;
    assert(text::texts(out@) == seq![head_text] + told.take(0));
    while i < files.len()
        invariant
            i <= files@.len(),
            told == text::texts(files@).map_values(
                |f: Seq<char>| "  - "@ + paths::below(path@, f),
            ),
            text::texts(out@) == seq![head_text] + told.take(i as int),
        decreases files@.len() - i,
    {
        let ghost before = text::texts(out@);
        let mut line = "  - ".to_owned();
        line.append(join_path(path, files[i].as_str()).as_str());
        out.push(line);
        proof {
            assert(line@ == told[i as int]);
            assert(text::texts(out@) == before.push(line@));
            assert(told.take(i + 1) == told.take(i as int).push(line@));
            assert(text::texts(out@) == seq![head_text] + told.take(i + 1));
        }
        i += 1;
    }
    assert(told.take(i as int) == told);
    let ghost before = text::texts(out@);
    let mut last = "Use this path with POST /projects: {\"path\":\"".to_owned();
    last.append(path);
    last.append("\"}");
    out.push(last);
    assert(text::texts(out@) == before.push(last@));
    assert(text::texts(out@) == scaffold_lines(path@, text::texts(files@)));
    out
}

/// Where the templates of a new project may lie, in the order in which they are looked for.
pub open spec fn template_places(
    asked: Option<Seq<char>>,
    from_env: Option<Seq<char>>,
    manifest_dir: Seq<char>,
    program: Option<Seq<char>>,
) -> Seq<Seq<char>> {
    (match asked {
        Some(p) => seq![p],
        None => match from_env {
            Some(p) => seq![p],
            None => Seq::empty(),
        },
    }) + seq![paths::below(manifest_dir, "templates"@)] + (match program {
        Some(p) => match paths::parent_of(p) {
            Some(dir) => seq![paths::below(dir, "templates"@)],
            None => Seq::empty(),
        },
        None => Seq::empty(),
    }) + seq![constants::TEMPLATE_DIR_SHARE@, constants::TEMPLATE_DIR_ETC@]
}

/// Where the templates of a new project may lie, in the order in which they are looked for: where
/// is asked for or else where the environment says, and then in the usual places.
pub fn template_candidates(
    asked: Option<&str>,
    from_env: Option<&str>,
    manifest_dir: &str,
    program: Option<&str>,
) -> (r: Vec<String>)
    ensures
        text::texts(r@) == template_places(
            crate::governor::opt_str(asked),
            crate::governor::opt_str(from_env),
            manifest_dir@,
            crate::governor::opt_str(program),
        ),
{
    let mut out: Vec<String> = Vec::new();
    match asked {
        Some(p) => out.push(p.to_owned()),
        None => if let Some(p) = from_env {
            out.push(p.to_owned());
        },
    }
    out.push(join_path(manifest_dir, "templates"));
    if let Some(p) = program {
        if let Some(dir) = parent(p) {
            out.push(join_path(dir.as_str(), "templates"));
        }
    }
    out.push(constants::TEMPLATE_DIR_SHARE.to_owned());
    out.push(constants::TEMPLATE_DIR_ETC.to_owned());
    assert(text::texts(out@) == template_places(
        crate::governor::opt_str(asked),
        crate::governor::opt_str(from_env),
        manifest_dir@,
        crate::governor::opt_str(program),
    ));
    out
}

/// The first place at which there is a directory.
pub fn resolve_template_dir(candidates: &Vec<String>, is_dir: &Vec<bool>) -> (r: Result<
    String,
    ForemanError,
>)
    requires
        is_dir@.len() == candidates@.len(),
    ensures
        match r {
            Ok(p) => exists|i: int|
                #![trigger candidates@[i]]
                0 <= i < candidates@.len() && is_dir@[i] && p@ == candidates@[i]@ && forall|j: int|
                    0 <= j < i ==> !is_dir@[j],
            Err(e) => {
                &&& forall|j: int| 0 <= j < is_dir@.len() ==> !is_dir@[j]
                &&& e@ == seq![
                    "template directory not found; searched: "@ + text::joined(
                        text::texts(candidates@),
                        ", "@,
                    ),
                ]
            },
        },
{
    let mut i: usize = 0;
    while i < candidates.len()
        invariant
            i <= candidates@.len(),
            is_dir@.len() == candidates@.len(),
            forall|j: int| 0 <= j < i ==> !is_dir@[j],
        decreases candidates@.len() - i,
    {
        if is_dir[i] {
            let found = candidates[i].clone();
            assert(found@ == candidates@[i as int]@);
            return Ok(found);
        }
        i += 1;
    }
    let mut message = "template directory not found; searched: ".to_owned();
    message.append(join(candidates, ", ").as_str());
    Err(ForemanError::new(message))
}

/// The time from which events are asked for.
pub fn parse_last_event_id(value: Option<&str>) -> (r: Option<u64>)
    ensures
        match value {
            Some(v) => match text_search::number_in(v@, u64::MAX as nat) {
                Some(n) => r matches Some(x) && x == n,
                None => r is None,
            },
            None => r is None,
        },
{
    match value {
        Some(v) => parse_unsigned(v, u64::MAX),
        None => None,
    }
}

/// What is told of an event of a job.
pub fn write_job_event(event: &JobEventEnvelope) -> (r: Json)
    ensures
        r@ == json::JsonView::Object(
            seq![
                ("job_id"@, json::JsonView::Text(ids::uuid_text(event.job_id))),
                ("agent_id"@, json::JsonView::Text(ids::uuid_text(event.agent_id))),
                ("ts"@, json_build::whole(event.ts as int)),
                ("method"@, json::JsonView::Text(event.method@)),
                ("params"@, event.params@),
            ],
        ),
{
    let mut items: Vec<(String, Json)> = Vec::new();
    assert(json::entries_model(items@) == Seq::<(Seq<char>, json::JsonView)>::empty());
    push_entry(&mut items, "job_id", Json::Text(id_text(event.job_id)));
    push_entry(&mut items, "agent_id", Json::Text(id_text(event.agent_id)));
    push_entry(&mut items, "ts", unsigned_json(event.ts));
    push_entry(&mut items, "method", Json::Text(event.method.clone()));
    push_entry(&mut items, "params", event.params.clone());
    assert(json::entries_model(items@) == seq![
        ("job_id"@, json::JsonView::Text(ids::uuid_text(event.job_id))),
        ("agent_id"@, json::JsonView::Text(ids::uuid_text(event.agent_id))),
        ("ts"@, json_build::whole(event.ts as int)),
        ("method"@, json::JsonView::Text(event.method@)),
        ("params"@, event.params@),
    ]);
    Json::Object(items)
}

/// Templates are looked for first where it is asked for, and then the environment has no say.
pub proof fn law_first_place_asked_for_wins(
    asked: Seq<char>,
    from_env: Option<Seq<char>>,
    manifest_dir: Seq<char>,
    program: Option<Seq<char>>,
)
    ensures
        template_places(Some(asked), from_env, manifest_dir, program)[0] == asked,
        template_places(Some(asked), from_env, manifest_dir, program) == template_places(
            Some(asked),
            None,
            manifest_dir,
            program,
        ),
{
}

/// A hint is given where the error is one that is known, by what it says; of two, the first in this
/// order counts.
pub proof fn law_known_errors_have_hints(lower: Seq<char>)
    ensures
        hint_for(lower) is Some <==> text::has_text(lower, "address already in use"@)
            || text::has_text(lower, "active pid"@) || text::has_text(lower, "failed to bind"@),
        text::has_text(lower, "address already in use"@) ==> text::begins(
            hint_for(lower)->0,
            "socket is already in use"@,
        ),
        !text::has_text(lower, "address already in use"@) && text::has_text(lower, "active pid"@)
            ==> text::begins(hint_for(lower)->0, "another foreman process is running"@),
{
    reveal_strlit("socket is already in use");
    reveal_strlit(
        "socket is already in use; remove the stale socket file or choose a different --socket-path",
    );
    reveal_strlit("another foreman process is running");
    reveal_strlit(
        "another foreman process is running; stop it first or retry with --force for crash recovery",
    );
    let a = "socket is already in use; remove the stale socket file or choose a different --socket-path"@;
    assert(a.subrange(0, 24) == "socket is already in use"@);
    assert(text::occurs_at(a, "socket is already in use"@, 0));
    let b = "another foreman process is running; stop it first or retry with --force for crash recovery"@;
    assert(b.subrange(0, 34) == "another foreman process is running"@);
    assert(text::occurs_at(b, "another foreman process is running"@, 0));
}

/// A lock stands beside its socket, under the name of the socket with an ending of its own.
pub proof fn law_locks_stand_beside_their_sockets(dir: Seq<char>, name: Seq<char>)
    requires
        name.len() > 0,
        forall|i: int| 0 <= i < name.len() ==> #[trigger] name[i] != '/',
        name[0] != '.',
        dir.len() > 0,
        dir.last() != '/',
        dir.last() != '.',
    ensures
        lock_path_of(dir + "/"@ + name) == dir + "/"@ + name + ".lock"@,
        directory_of(dir + "/"@ + name) == dir,
{
    paths::law_names_are_in_their_directories(dir, name);
    let locked = name + ".lock"@;
    assert(locked[0] == name[0]);
    assert(!paths::absolute(locked)) by {
        reveal_strlit("/");
        assert("/"@[0] == '/');
        if paths::absolute(locked) {
            assert(locked.subrange(0, 1)[0] == locked[0]);
        }
    }
    assert(dir + "/"@ + locked == dir + "/"@ + name + ".lock"@);
}

/// The process that holds a lock is the one whose number the lock holds.
pub proof fn law_locks_name_their_process(pid: u32)
    ensures
        pid_in(text::decimal(pid as nat)) == Some(pid as nat),
        pid_in(Seq::<char>::empty()) is None,
{
    let s = text::decimal(pid as nat);
    text_search::law_numbers_are_read_back(pid as nat, u32::MAX as nat, seq!['x'], 0);
    lemma_decimal_is_trimmed(pid as nat);
    assert(text::trimmed(Seq::<char>::empty()) == Seq::<char>::empty());
}

proof fn lemma_decimal_is_trimmed(n: nat)
    ensures
        text::trimmed(text::decimal(n)) == text::decimal(n),
{
    let s = text::decimal(n);
    lemma_digits_are_not_white(n);
    let none = Seq::<char>::empty();
    assert(!text::in_class(s[0], true, none));
    assert(!text::in_class(s.last(), true, none));
}

proof fn lemma_digits_are_not_white(n: nat)
    ensures
        text::decimal(n).len() > 0,
        !text::is_white(text::decimal(n)[0]),
        !text::is_white(text::decimal(n).last()),
    decreases n,
{
    let s = text::decimal(n);
    if n >= 10 {
        lemma_digits_are_not_white(n / 10);
        assert(s[0] == text::decimal(n / 10)[0]);
        assert(s.last() as int == 48 + n % 10);
    } else {
        assert(s.last() as int == 48 + n);
    }
}

/// A version is a word of digits and dots; the first one that is put out counts, and what goes to
/// the error output counts only where there is none before.
pub proof fn law_first_version_counts(words: Seq<Seq<char>>, word: Seq<char>)
    ensures
        first_version(Seq::<Seq<char>>::empty()) is None,
        first_version(words) is Some ==> first_version(words.push(word)) == first_version(words)
            && is_version(first_version(words)->0) && words.contains(first_version(words)->0),
        first_version(words) is None && is_version(word) ==> first_version(words.push(word))
            == Some(word),
        first_version(words) is None && !is_version(word) ==> first_version(words.push(word))
            is None,
    decreases words.len(),
{
    assert(words.push(word).drop_last() == words);
    if words.len() > 0 {
        let rest = words.drop_last();
        law_first_version_counts(rest, words.last());
        assert(rest.push(words.last()) == words);
        if first_version(rest) is Some {
            let v = first_version(rest)->0;
            let i = choose|i: int| 0 <= i < rest.len() && rest[i] == v;
            assert(words[i] == v);
        } else if first_version(words) is Some {
            assert(words[words.len() - 1] == first_version(words)->0);
        }
    }
}

/// A program is taken exactly where it ran well and told the version that is expected.
pub proof fn law_only_the_expected_version_is_taken(
    expected: Seq<char>,
    output: Result<VersionOutput, String>,
)
    ensures
        version_problem(expected, output) is None <==> output is Ok && output->Ok_0.success
            && detected_version(output->Ok_0) == Some(expected),
        output is Ok && first_version(text::words(output->Ok_0.stdout@)) is Some
            ==> detected_version(output->Ok_0) == first_version(text::words(output->Ok_0.stdout@)),
        output is Ok && first_version(text::words(output->Ok_0.stdout@)) is None
            ==> detected_version(output->Ok_0) == first_version(text::words(output->Ok_0.stderr@)),
{
}

/// A project is named by the path of its file, which is called by its own name.
pub proof fn law_projects_are_named_by_their_file(path: Seq<char>, is_file: bool)
    ensures
        project_path_problem(None, is_file) is Some,
        project_path_problem(Some(path), is_file) is None <==> is_file && paths::last_part(path)
            == Some("project.toml"@),
{
}

proof fn lemma_joined_names(first: Seq<Seq<char>>, second: Seq<Seq<char>>, name: Seq<char>)
    ensures
        joined_names(first, second).contains(name) <==> first.contains(name) || second.contains(
            name,
        ),
    decreases second.len(),
{
    if second.len() > 0 {
        let rest = second.drop_last();
        let before = joined_names(first, rest);
        lemma_joined_names(first, rest, name);
        assert(second.contains(name) <==> rest.contains(name) || second.last() == name) by {
            if second.contains(name) {
                let i = choose|i: int| 0 <= i < second.len() && second[i] == name;
                if i < rest.len() {
                    assert(rest[i] == name);
                }
            }
            if rest.contains(name) {
                let i = choose|i: int| 0 <= i < rest.len() && rest[i] == name;
                assert(second[i] == name);
            }
            if second.last() == name {
                assert(second[second.len() - 1] == name);
            }
        }
        if !before.contains(second.last()) {
            let after = before.push(second.last());
            assert(after[after.len() - 1] == second.last());
            if before.contains(name) {
                let i = choose|i: int| 0 <= i < before.len() && before[i] == name;
                assert(after[i] == name);
            }
            if after.contains(name) && name != second.last() {
                let i = choose|i: int| 0 <= i < after.len() && after[i] == name;
                assert(before[i] == name);
            }
        }
    }
}

/// The names of two lists are those of either, the first list as it stands before what the second
/// adds.
pub proof fn law_names_of_both_lists_count(
    first: Seq<Seq<char>>,
    second: Seq<Seq<char>>,
    name: Seq<char>,
)
    ensures
        joined_names(first, second).contains(name) <==> first.contains(name) || second.contains(
            name,
        ),
        joined_names(first, Seq::<Seq<char>>::empty()) == first,
        first.len() <= joined_names(first, second).len(),
        joined_names(first, second).take(first.len() as int) == first,
    decreases second.len(),
{
    lemma_joined_names(first, second, name);
    if second.len() > 0 {
        law_names_of_both_lists_count(first, second.drop_last(), name);
    }
}

/// A scaffold holds the files of a project, and a manual where one is asked for; each is told of.
pub proof fn law_scaffolds_hold_the_files(path: Seq<char>, files: Seq<Seq<char>>)
    ensures
        scaffold(false) == seq![
            "project.toml"@,
            "FOREMAN.md"@,
            "WORKER.md"@,
            "RUNBOOK.md"@,
            "HANDOFF.md"@,
        ],
        scaffold(true) == scaffold(false).push("MANUAL.md"@),
        scaffold_lines(path, files).len() == files.len() + 2,
        forall|i: int|
            0 <= i < files.len() ==> #[trigger] scaffold_lines(path, files)[i + 1] == "  - "@
                + paths::below(path, files[i]),
        warning_lines(files).len() == (if files.len() == 0 { 1nat } else { files.len() }),
{
}

/// Templates are looked for where they are asked for, beside the project, beside the program and in
/// the places of the system, in this order.
pub proof fn law_places_are_tried_in_order(
    asked: Option<Seq<char>>,
    from_env: Option<Seq<char>>,
    manifest_dir: Seq<char>,
    program: Option<Seq<char>>,
)
    ensures
        ({
            let places = template_places(asked, from_env, manifest_dir, program);
            let n = if asked is Some || from_env is Some {
                1int
            } else {
                0
            };
            &&& asked is None && from_env is Some ==> places[0] == from_env->0
            &&& places[n] == paths::below(manifest_dir, "templates"@)
            &&& places[places.len() - 2] == "/usr/share/foreman/templates"@
            &&& places.last() == "/etc/foreman/templates"@
        }),
{
}

/// A version has at least one character, and only digits and dots.
pub proof fn law_versions_are_digits_and_dots(word: Seq<char>, i: int)
    ensures
        is_version(Seq::<char>::empty()) == false,
        is_version(word) && 0 <= i < word.len() ==> ('0' <= word[i] <= '9') || word[i] == '.',
        word.len() > 0 && (forall|k: int| 0 <= k < word.len() ==> #[trigger] word[k] == '1')
            ==> is_version(word),
        directory_of("/"@) == "."@,
        warning_lines(seq![word]) == seq!["warning: "@ + word],
{
    reveal_strlit("/");
    assert("/"@.len() == 1 && "/"@[0] == '/');
    assert(paths::tidy_end("/"@) == "/"@);
    assert(paths::parent_of("/"@) is None);
}

/// A profile is told with its kind and its target.
pub proof fn law_profiles_are_told_with_their_target(name: Seq<char>, profile: CallbackProfile)
    ensures
        profile is Webhook ==> text::begins(
            line_of(name, profile),
            " - "@ + name + ": "@ + "webhook"@ + " -> "@ + profile->Webhook_0.url@,
        ),
        profile is UnixSocket ==> text::begins(
            line_of(name, profile),
            " - "@ + name + ": "@ + "unix-socket"@ + " -> "@ + profile->UnixSocket_0.socket@,
        ),
        profile is Command ==> text::begins(
            line_of(name, profile),
            " - "@ + name + ": "@ + "command"@ + " -> "@ + profile->Command_0.program@,
        ),
{
    let line = line_of(name, profile);
    let head = match profile {
        CallbackProfile::Webhook(w) => " - "@ + name + ": "@ + "webhook"@ + " -> "@ + w.url@,
        CallbackProfile::Command(c) => " - "@ + name + ": "@ + "command"@ + " -> "@ + c.program@,
        CallbackProfile::UnixSocket(s) => " - "@ + name + ": "@ + "unix-socket"@ + " -> "@
            + s.socket@,
    };
    assert(line.subrange(0, head.len() as int) == head);
    assert(text::occurs_at(line, head, 0));
}

} // verus!

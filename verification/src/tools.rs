//! The tools that an agent uses, as its events tell, and the callbacks that wait for them.
use vstd::prelude::*;

use crate::config::CallbackFilter;
use crate::constants;
use crate::extract;
use crate::extract::extract_item_payload;
use crate::ids;
use crate::ids::id_text;
use crate::json;
use crate::json::{first_of, get_in, signed_in, text_in, texts_in, unsigned_in, Json};
use crate::models;
use crate::models::{AgentEventDto, ToolCallSummary, WorkerLogEntry};
use crate::text;
use crate::text::{chars_of, same_text, text_range, trim, trims_to_empty};
use crate::text_map::TextMap;
use crate::text_search::{
    contains, ends_with, eq_ignore_ascii_case, join, lines, starts_with, to_ascii_lowercase,
};

verus! {

/// The tool of an event on an item.
pub open spec fn tool_of(method: Seq<char>, params: json::JsonView) -> Option<Seq<char>> {
    if method != constants::EVENT_METHOD_ITEM_STARTED@ && method
        != constants::EVENT_METHOD_ITEM_COMPLETED@ {
        None
    } else {
        let item = extract::item_of(params);
        match json::text_of(json::inner(item, "type"@)) {
            Some(t) => if t == "commandExecution"@ {
                Some("exec_command"@)
            } else if t == "fileChange"@ {
                Some("apply_patch"@)
            } else if t == "dynamicToolCall"@ {
                json::text_of(json::inner(item, "tool"@))
            } else {
                None
            },
            None => None,
        }
    }
}

/// The texts of a list, where there are some.
pub open spec fn some_texts(value: Option<json::JsonView>) -> Option<Seq<Seq<char>>> {
    match value {
        Some(json::JsonView::List(items)) => if json::only_texts(items).len() == 0 {
            None
        } else {
            Some(json::only_texts(items))
        },
        _ => None,
    }
}

/// The command of an event: its item's command with the arguments, or the one at the top.
pub open spec fn command_of(params: json::JsonView) -> Option<Seq<char>> {
    let item = extract::item_of(params);
    let command = json::text_of(json::inner(item, "command"@));
    let arguments = some_texts(json::inner(item, "arguments"@));
    match (command, arguments) {
        (Some(c), Some(a)) => Some(c + " "@ + text::joined(a, " "@)),
        (Some(c), None) => Some(c),
        (None, Some(a)) => Some(text::joined(a, " "@)),
        (None, None) => json::text_of(
            json::either(
                json::member(params, "command"@),
                json::either(json::member(params, "cmd"@), json::member(params, "program"@)),
            ),
        ),
    }
}

/// The paths of the changes.
pub open spec fn paths_in(changes: Seq<json::JsonView>) -> Seq<Seq<char>>
    decreases changes.len(),
{
    if changes.len() == 0 {
        Seq::empty()
    } else {
        let before = paths_in(changes.drop_last());
        match json::text_of(json::member(changes.last(), "path"@)) {
            Some(p) => before.push(p),
            None => before,
        }
    }
}

/// The paths that an event's item changed.
pub open spec fn change_paths(params: json::JsonView) -> Seq<Seq<char>> {
    match json::inner(extract::item_of(params), "changes"@) {
        Some(json::JsonView::List(changes)) => paths_in(changes),
        _ => Seq::empty(),
    }
}

/// The path of an event: the first one changed, or else the one that is named.
pub open spec fn path_of(params: json::JsonView) -> Option<Seq<char>> {
    let item = extract::item_of(params);
    if change_paths(params).len() > 0 {
        Some(change_paths(params)[0])
    } else {
        json::text_of(
            json::either(
                json::member(params, "path"@),
                json::either(
                    json::member(params, "file"@),
                    json::either(
                        json::member(params, "target"@),
                        json::either(
                            json::inner(item, "path"@),
                            json::either(json::inner(item, "file"@), json::inner(item, "target"@)),
                        ),
                    ),
                ),
            ),
        )
    }
}

/// A number that fits in `i32`.
pub open spec fn small(n: Option<i64>) -> Option<i32> {
    match n {
        Some(n) => if i32::MIN <= n <= i32::MAX {
            Some(n as i32)
        } else {
            None
        },
        None => None,
    }
}

/// The exit code of an event: its item's, that of the item's result, or the one at the top.
pub open spec fn exit_code_of(params: json::JsonView) -> Option<i32> {
    let item = extract::item_of(params);
    let result = json::inner(item, "result"@);
    json::either(
        small(
            json::signed_of(
                json::either(
                    json::either(json::inner(item, "exit_code"@), json::inner(item, "exitCode"@)),
                    json::either(json::inner(result, "exit_code"@), json::inner(result, "exitCode"@)),
                ),
            ),
        ),
        small(
            json::signed_of(
                json::either(
                    json::member(params, "exit_code"@),
                    json::either(json::member(params, "exitCode"@), json::member(params, "code"@)),
                ),
            ),
        ),
    )
}

/// What an event reports on the error channel.
pub open spec fn stderr_of(params: json::JsonView) -> Option<Seq<char>> {
    let item = extract::item_of(params);
    json::either(
        json::text_of(
            json::either(
                json::either(json::inner(item, "stderr"@), json::inner(item, "error"@)),
                json::inner(json::inner(item, "result"@), "stderr"@),
            ),
        ),
        json::text_of(json::member(params, "stderr"@)),
    )
}

/// A number that fits in `usize`.
pub open spec fn sized(n: Option<u64>) -> Option<usize> {
    match n {
        Some(n) => if n <= usize::MAX {
            Some(n as usize)
        } else {
            None
        },
        None => None,
    }
}

/// The first of the members in which a size stands.
pub open spec fn size_member(value: Option<json::JsonView>) -> Option<json::JsonView> {
    json::either(
        json::inner(value, "bytes"@),
        json::either(json::inner(value, "size"@), json::inner(value, "output_bytes"@)),
    )
}

/// How many bytes an event reports.
pub open spec fn bytes_of(params: json::JsonView) -> Option<usize> {
    let item = extract::item_of(params);
    json::either(
        sized(
            json::unsigned_of(
                json::either(size_member(item), size_member(json::inner(item, "result"@))),
            ),
        ),
        sized(json::unsigned_of(size_member(Some(params)))),
    )
}

/// The last `max_lines` lines of the item's output, unless they are blank.
pub open spec fn output_tail_of(params: json::JsonView, max_lines: usize) -> Option<Seq<char>> {
    match json::text_of(json::inner(extract::item_of(params), "output"@)) {
        None => None,
        Some(output) => {
            let all = text::lines_of(output);
            let start = if all.len() <= max_lines {
                0
            } else {
                all.len() - max_lines
            };
            extract::unless_blank(Some(text::joined(all.skip(start), "\n"@)))
        },
    }
}

/// A tool call, by its tool, its command, its path and its time.
pub open spec fn call_of(event: models::EventView) -> Option<
    (Seq<char>, Option<Seq<char>>, Option<Seq<char>>, u64),
> {
    if event.method != constants::EVENT_METHOD_ITEM_COMPLETED@ {
        None
    } else {
        match tool_of(event.method, event.params) {
            Some(tool) => Some((tool, command_of(event.params), path_of(event.params), event.ts)),
            None => None,
        }
    }
}

/// What a summary of a tool call says.
pub open spec fn call_view(c: ToolCallSummary) -> (
    Seq<char>,
    Option<Seq<char>>,
    Option<Seq<char>>,
    u64,
) {
    (c.tool@, text::opt_text(c.command), text::opt_text(c.path), c.at)
}

/// Whether a tool changes files.
pub open spec fn changes_files(tool: Seq<char>) -> bool {
    tool == "apply_patch"@ || tool == "write_file"@
}

/// The files that a tool's event changed.
pub open spec fn modified_paths(params: json::JsonView, tool: Seq<char>) -> Seq<Seq<char>> {
    if tool == "apply_patch"@ && change_paths(params).len() > 0 {
        change_paths(params)
    } else {
        match path_of(params) {
            Some(p) => seq![p],
            None => Seq::empty(),
        }
    }
}

/// The tool of an event on an item.
pub fn normalize_tool_name(method: &str, params: &Json) -> (r: Option<String>)
    ensures
        text::opt_text(r) == tool_of(method@, params@),
{
    if !same_text(method, constants::EVENT_METHOD_ITEM_STARTED) && !same_text(
        method,
        constants::EVENT_METHOD_ITEM_COMPLETED,
    ) {
        return None;
    }
    let item = extract_item_payload(params);
    match text_in(get_in(item, "type")) {
        Some(t) => {
            if same_text(t.as_str(), "commandExecution") {
                Some("exec_command".to_owned())
            } else if same_text(t.as_str(), "fileChange") {
                Some("apply_patch".to_owned())
            } else if same_text(t.as_str(), "dynamicToolCall") {
                text_in(get_in(item, "tool"))
            } else {
                None
            }
        },
        None => None,
    }
}

/// Whether an event says that a command has run.
pub fn is_command_execution_item_completed(method: &str, params: &Json) -> (r: bool)
    ensures
        r == (method@ == constants::EVENT_METHOD_ITEM_COMPLETED@ && json::text_of(
            json::inner(extract::item_of(params@), "type"@),
        ) == Some("commandExecution"@)),
{
    if !same_text(method, constants::EVENT_METHOD_ITEM_COMPLETED) {
        return false;
    }
    match text_in(get_in(extract_item_payload(params), "type")) {
        Some(t) => same_text(t.as_str(), "commandExecution"),
        None => false,
    }
}

/// The texts of a list, where there are some.
pub fn parse_string_array(value: Option<&Json>) -> (r: Option<Vec<String>>)
    ensures
        text::opt_texts(r) == some_texts(json::behind(value)),
{
    match value {
        Some(Json::List(items)) => {
            let found = texts_in(items);
            assert(text::texts(found@).len() == found@.len());
            if found.len() == 0 {
                None
            } else {
                Some(found)
            }
        },
        _ => None,
    }
}

/// The command of an event.
pub fn parse_command(params: &Json) -> (r: Option<String>)
    ensures
        text::opt_text(r) == command_of(params@),
{
    let item = extract_item_payload(params);
    let command = text_in(get_in(item, "command"));
    let arguments = parse_string_array(get_in(item, "arguments"));
    match (command, arguments) {
        (Some(c), Some(a)) => {
            let mut whole = c;
            whole.append(" ");
            whole.append(join(&a, " ").as_str());
            Some(whole)
        },
        (Some(c), None) => Some(c),
        (None, Some(a)) => Some(join(&a, " ")),
        (None, None) => text_in(
            first_of(params.get("command"), first_of(params.get("cmd"), params.get("program"))),
        ),
    }
}

/// The paths that an event's item changed.
pub fn parse_change_paths(params: &Json) -> (r: Vec<String>)
    ensures
        text::texts(r@) == change_paths(params@),
{
    let mut found: Vec<String> = Vec::new();
    assert(text::texts(found@) == Seq::<Seq<char>>::empty());
    if let Some(Json::List(changes)) = get_in(extract_item_payload(params), "changes") {
        let mut i: usize = 0;
        while i < changes.len()
            invariant
                i <= changes@.len(),
                text::texts(found@) == paths_in(json::list_model(changes@.take(i as int))),
            decreases changes@.len() - i,
        {
            proof {
                assert(changes@.take(i + 1).drop_last() == changes@.take(i as int));
                let part = json::list_model(changes@.take(i + 1));
                assert(part.drop_last() == json::list_model(changes@.take(i as int)));
                assert(part.last() == changes@[i as int]@);
                assert(part.len() > 0);
            }
            if let Some(p) = text_in(changes[i].get("path")) {
                assert(text::texts(found@.push(p)) == text::texts(found@).push(p@));
                found.push(p);
            }
            i += 1;
        }
        assert(changes@.take(changes@.len() as int) == changes@);
    }
    found
}

/// The path of an event.
pub fn parse_path(params: &Json) -> (r: Option<String>)
    ensures
        text::opt_text(r) == path_of(params@),
{
    let changed = parse_change_paths(params);
    assert(text::texts(changed@).len() == changed@.len());
    if changed.len() > 0 {
        assert(text::texts(changed@)[0] == changed@[0]@);
        return Some(changed[0].clone());
    }
    let item = extract_item_payload(params);
    text_in(
        first_of(
            params.get("path"),
            first_of(
                params.get("file"),
                first_of(
                    params.get("target"),
                    first_of(
                        get_in(item, "path"),
                        first_of(get_in(item, "file"), get_in(item, "target")),
                    ),
                ),
            ),
        ),
    )
}

fn to_small(n: Option<i64>) -> (r: Option<i32>)
    ensures
        r == small(n),
{
    match n {
        Some(n) => if i32::MIN as i64 <= n && n <= i32::MAX as i64 {
            Some(n as i32)
        } else {
            None
        },
        None => None,
    }
}

/// The exit code of an event.
pub fn parse_exit_code(params: &Json) -> (r: Option<i32>)
    ensures
        r == exit_code_of(params@),
{
    let item = extract_item_payload(params);
    let result = get_in(item, "result");
    let inside = to_small(
        signed_in(
            first_of(
                first_of(get_in(item, "exit_code"), get_in(item, "exitCode")),
                first_of(get_in(result, "exit_code"), get_in(result, "exitCode")),
            ),
        ),
    );
    if inside.is_some() {
        return inside;
    }
    to_small(
        signed_in(
            first_of(
                params.get("exit_code"),
                first_of(params.get("exitCode"), params.get("code")),
            ),
        ),
    )
}

/// What an event reports on the error channel.
pub fn parse_stderr(params: &Json) -> (r: Option<String>)
    ensures
        text::opt_text(r) == stderr_of(params@),
{
    let item = extract_item_payload(params);
    extract::either_text(
        text_in(
            first_of(
                first_of(get_in(item, "stderr"), get_in(item, "error")),
                get_in(get_in(item, "result"), "stderr"),
            ),
        ),
        text_in(params.get("stderr")),
    )
}

fn to_sized(n: Option<u64>) -> (r: Option<usize>)
    ensures
        r == sized(n),
{
    match n {
        Some(n) => if n <= usize::MAX as u64 {
            Some(n as usize)
        } else {
            None
        },
        None => None,
    }
}

fn get_size<'a>(value: Option<&'a Json>) -> (r: Option<&'a Json>)
    ensures
        json::behind(r) == size_member(json::behind(value)),
{
    first_of(
        get_in(value, "bytes"),
        first_of(get_in(value, "size"), get_in(value, "output_bytes")),
    )
}

/// How many bytes an event reports.
pub fn parse_bytes(params: &Json) -> (r: Option<usize>)
    ensures
        r == bytes_of(params@),
{
    let item = extract_item_payload(params);
    let inside = to_sized(
        unsigned_in(first_of(get_size(item), get_size(get_in(item, "result")))),
    );
    if inside.is_some() {
        return inside;
    }
    to_sized(unsigned_in(get_size(Some(params))))
}

/// The last `max_lines` lines of the item's output, unless they are blank.
pub fn parse_output_tail(params: &Json, max_lines: usize) -> (r: Option<String>)
    ensures
        text::opt_text(r) == output_tail_of(params@, max_lines),
{
    let output = match text_in(get_in(extract_item_payload(params), "output")) {
        Some(output) => output,
        None => {
            return None;
        },
    };
    let all = lines(output.as_str());
    let n: usize = all.len();
    let start: usize = if n <= max_lines {
        0
    } else {
        n - max_lines
    };
    let mut tail: Vec<String> = Vec::new();
    let mut i: usize = start;
    while i < n
        invariant
            start <= i <= n,
            n == all@.len(),
            tail@ == all@.subrange(start as int, i as int),
        decreases n - i,
    {
        tail.push(all[i].clone());
        i += 1;
        assert(all@.subrange(start as int, i as int) == all@.subrange(start as int, i - 1).push(
            all@[i - 1],
        ));
    }
    assert(text::texts(tail@) == text::texts(all@).skip(start as int));
    let joined = join(&tail, "\n");
    if trims_to_empty(joined.as_str()) {
        None
    } else {
        Some(joined)
    }
}

/// The tool call that an event tells of.
pub fn parse_tool_call_summary(event: &AgentEventDto) -> (r: Option<ToolCallSummary>)
    ensures
        r is Some == call_of(event@) is Some,
        r matches Some(c) ==> Some(call_view(c)) == call_of(event@),
{
    if !same_text(event.method.as_str(), constants::EVENT_METHOD_ITEM_COMPLETED) {
        return None;
    }
    match normalize_tool_name(event.method.as_str(), &event.params) {
        Some(tool) => Some(
            ToolCallSummary {
                tool,
                command: parse_command(&event.params),
                path: parse_path(&event.params),
                at: event.ts,
            },
        ),
        None => None,
    }
}

/// The line in the log for the tool call that an event tells of.
pub fn parse_worker_log_entry(event: &AgentEventDto, turn: u32) -> (r: Option<WorkerLogEntry>)
    ensures
        r is Some == call_of(event@) is Some,
        r matches Some(e) ==> {
            &&& Some((e.tool@, text::opt_text(e.command), text::opt_text(e.path), e.at)) == call_of(
                event@,
            )
            &&& e.turn == turn
            &&& e.exit_code == exit_code_of(event@.params)
            &&& text::opt_text(e.stderr) == stderr_of(event@.params)
            &&& e.bytes == bytes_of(event@.params)
        },
{
    match parse_tool_call_summary(event) {
        Some(call) => Some(
            WorkerLogEntry {
                turn,
                tool: call.tool,
                command: call.command,
                path: call.path,
                exit_code: parse_exit_code(&event.params),
                stderr: parse_stderr(&event.params),
                bytes: parse_bytes(&event.params),
                at: event.ts,
            },
        ),
        None => None,
    }
}

/// Whether a tool changes files.
pub fn is_file_modifying_tool(tool: &str) -> (r: bool)
    ensures
        r == changes_files(tool@),
{
    same_text(tool, "apply_patch") || same_text(tool, "write_file")
}

/// The files that a tool's event changed.
pub fn parse_modified_paths(params: &Json, tool: &str) -> (r: Vec<String>)
    ensures
        text::texts(r@) == modified_paths(params@, tool@),
{
    if same_text(tool, "apply_patch") {
        let changed = parse_change_paths(params);
        assert(text::texts(changed@).len() == changed@.len());
        if changed.len() > 0 {
            return changed;
        }
    }
    let mut found: Vec<String> = Vec::new();
    assert(text::texts(found@) == Seq::<Seq<char>>::empty());
    if let Some(p) = parse_path(params) {
        found.push(p);
        assert(text::texts(found@) == seq![p@]);
    }
    found
}

/// Whether a character has a meaning in regular expressions.
pub open spec fn is_regex_char(c: char) -> bool {
    c == '.' || c == '^' || c == '$' || c == '*' || c == '+' || c == '?' || c == '(' || c == ')'
        || c == '[' || c == ']' || c == '{' || c == '}' || c == '|'
}

/// Whether a text stands between slashes.
pub open spec fn is_delimited(s: Seq<char>) -> bool {
    text::begins(s, "/"@) && text::ends(s, "/"@) && s.len() > 1
}

/// Whether a pattern is taken as a regular expression.
pub open spec fn is_regex(pattern: Seq<char>) -> bool {
    let t = text::trimmed(pattern);
    is_delimited(t) || exists|i: int| 0 <= i < t.len() && is_regex_char(#[trigger] t[i])
}

/// A pattern without the slashes around it.
pub open spec fn undelimited(pattern: Seq<char>) -> Seq<char> {
    let t = text::trimmed(pattern);
    if is_delimited(t) {
        t.subrange(1, t.len() - 1)
    } else {
        t
    }
}

/// Whether the regular expression `pattern`, without regard to case, is found in `text`; none
/// where the pattern is no regular expression.
pub uninterp spec fn regex_found(pattern: Seq<char>, text: Seq<char>) -> Option<bool>;

/// `RegexBuilder::new`, `case_insensitive(true)` and `build`, then `Regex::is_match`: whether
/// the pattern is found anywhere in the text, or none where it does not compile.
#[verifier::external_body]
fn regex_search(pattern: &str, text: &str) -> (r: Option<bool>)
    ensures
        r == regex_found(pattern@, text@),
{
    let built = regex::RegexBuilder::new(pattern).case_insensitive(true).build();
    built.ok().map(|regex| regex.is_match(text))
}

/// Whether a pattern is taken as a regular expression.
pub fn pattern_looks_like_regex(pattern: &str) -> (r: bool)
    ensures
        r == is_regex(pattern@),
{
    let trimmed = trim(pattern);
    let chars = chars_of(trimmed.as_str());
    if starts_with(trimmed.as_str(), "/") && ends_with(trimmed.as_str(), "/") && chars.len() > 1 {
        return true;
    }
    let mut i: usize = 0;
    while i < chars.len()
        invariant
            i <= chars@.len(),
            chars@ == text::trimmed(pattern@),
            !is_delimited(chars@),
            forall|j: int| 0 <= j < i ==> !is_regex_char(#[trigger] chars@[j]),
        decreases chars@.len() - i,
    {
        let c = chars[i];
        if c == '.' || c == '^' || c == '$' || c == '*' || c == '+' || c == '?' || c == '(' || c
            == ')' || c == '[' || c == ']' || c == '{' || c == '}' || c == '|' {
            assert(is_regex_char(chars@[i as int]));
            return true;
        }
        i += 1;
    }
    false
}

/// A pattern without the slashes around it.
pub fn strip_regex_delimiters(pattern: &str) -> (r: String)
    ensures
        r@ == undelimited(pattern@),
{
    let trimmed = trim(pattern);
    let chars = chars_of(trimmed.as_str());
    let n: usize = chars.len();
    if starts_with(trimmed.as_str(), "/") && ends_with(trimmed.as_str(), "/") && n > 1 {
        text_range(&chars, 1, n - 1)
    } else {
        trimmed
    }
}

/// Whether a command is one that a pattern asks for, given what the regular expression found
/// where the pattern is one.
pub open spec fn pattern_verdict(
    command: Seq<char>,
    pattern: Seq<char>,
    found: Option<bool>,
) -> bool {
    if text::is_blank(pattern) {
        true
    } else if is_regex(pattern) {
        found == Some(true)
    } else {
        text::has_text(text::ascii_lower(command), text::ascii_lower(pattern))
    }
}

/// Whether a command is one that a pattern asks for.
pub open spec fn command_matches(command: Option<Seq<char>>, pattern: Seq<char>) -> bool {
    match command {
        None => false,
        Some(c) => pattern_verdict(c, pattern, regex_found(undelimited(pattern), c)),
    }
}

/// Whether a command is one that a pattern asks for, given what the regular expression found.
pub fn judge_pattern(command: &str, pattern: &str, found: Option<bool>) -> (r: bool)
    ensures
        r == pattern_verdict(command@, pattern@, found),
{
    if trims_to_empty(pattern) {
        return true;
    }
    if pattern_looks_like_regex(pattern) {
        return match found {
            Some(b) => b,
            None => false,
        };
    }
    contains(to_ascii_lowercase(command).as_str(), to_ascii_lowercase(pattern).as_str())
}

/// Whether a command is one that a pattern asks for.
pub fn command_matches_pattern(command: Option<&str>, pattern: &str) -> (r: bool)
    ensures
        r == command_matches(
            match command {
                Some(c) => Some(c@),
                None => None,
            },
            pattern@,
        ),
{
    match command {
        None => false,
        Some(c) => {
            let found: Option<bool> = if pattern_looks_like_regex(pattern) {
                regex_search(strip_regex_delimiters(pattern).as_str(), c)
            } else {
                None
            };
            judge_pattern(c, pattern, found)
        },
    }
}

/// Whether a filter waits for a tool.
pub open spec fn filter_wants_tool(tool: Seq<char>, filter: CallbackFilter) -> bool {
    text::ascii_lower(tool) == text::ascii_lower(filter.tool@)
}

/// Whether a filter waits for a tool.
pub fn tool_matches_filter(normalized_tool: &str, filter: &CallbackFilter) -> (r: bool)
    ensures
        r == filter_wants_tool(normalized_tool@, *filter),
{
    eq_ignore_ascii_case(normalized_tool, filter.tool.as_str())
}

/// The key under which the time of a filter's last callback for an agent is kept.
pub open spec fn debounce_key(agent_id: u128, filter: Seq<char>) -> Seq<char> {
    ids::uuid_text(agent_id) + filter
}

/// Whether a filter's last callback is too recent.
pub open spec fn is_debounced(
    last: Map<Seq<char>, u64>,
    agent_id: u128,
    filter: CallbackFilter,
    now_ms: u64,
) -> bool {
    let key = debounce_key(agent_id, filter.name@);
    filter.debounce_ms matches Some(window) && window > 0 && last.dom().contains(key) && (if now_ms
        >= last[key] {
        now_ms - last[key]
    } else {
        0
    }) < window
}

/// Whether a filter fires: it waits for the tool, its pattern asks for the command, and its last
/// callback is not too recent.
pub open spec fn filter_fires(
    last: Map<Seq<char>, u64>,
    agent_id: u128,
    tool: Seq<char>,
    wanted: bool,
    filter: CallbackFilter,
    now_ms: u64,
) -> bool {
    filter_wants_tool(tool, filter) && wanted && !is_debounced(last, agent_id, filter, now_ms)
}

/// Whether a filter fires, given whether its pattern asks for the command. Keeps the time where
/// it does.
pub fn fire_tool_filter(
    last: &mut TextMap<u64>,
    agent_id: u128,
    normalized_tool: &str,
    wanted: bool,
    filter: &CallbackFilter,
    now_ms: u64,
) -> (r: bool)
    ensures
        r == filter_fires(old(last)@, agent_id, normalized_tool@, wanted, *filter, now_ms),
        r ==> final(last)@ == old(last)@.insert(debounce_key(agent_id, filter.name@), now_ms),
        !r ==> *final(last) == *old(last),
{
    if !tool_matches_filter(normalized_tool, filter) || !wanted {
        return false;
    }
    let mut key = id_text(agent_id);
    key.append(filter.name.as_str());
    if let Some(window) = filter.debounce_ms {
        if window > 0 {
            if let Some(fired) = last.get(key.as_str()) {
                if now_ms.saturating_sub(*fired) < window {
                    return false;
                }
            }
        }
    }
    last.insert(key, now_ms);
    true
}

/// Whether a filter fires for a tool that ran a command. Keeps the time where it does.
pub fn should_fire_tool_filter(
    last: &mut TextMap<u64>,
    agent_id: u128,
    normalized_tool: &str,
    command: Option<&str>,
    filter: &CallbackFilter,
    now_ms: u64,
) -> (r: bool)
    ensures
        r == filter_fires(
            old(last)@,
            agent_id,
            normalized_tool@,
            command_matches(
                match command {
                    Some(c) => Some(c@),
                    None => None,
                },
                filter.command_pattern@,
            ),
            *filter,
            now_ms,
        ),
        r ==> final(last)@ == old(last)@.insert(debounce_key(agent_id, filter.name@), now_ms),
        !r ==> *final(last) == *old(last),
{
    let wanted = command_matches_pattern(command, filter.command_pattern.as_str());
    fire_tool_filter(last, agent_id, normalized_tool, wanted, filter, now_ms)
}

/// A filter with a window does not fire twice for an agent within the window.
pub proof fn law_no_second_firing_within_the_window(
    last: Map<Seq<char>, u64>,
    agent_id: u128,
    tool: Seq<char>,
    wanted: bool,
    filter: CallbackFilter,
    first_ms: u64,
    second_ms: u64,
)
    requires
        filter_fires(last, agent_id, tool, wanted, filter, first_ms),
        filter.debounce_ms matches Some(window) && window > 0 && first_ms <= second_ms < first_ms
            + window,
    ensures
        !filter_fires(
            last.insert(debounce_key(agent_id, filter.name@), first_ms),
            agent_id,
            tool,
            wanted,
            filter,
            second_ms,
        ),
{
}

/// Two agents, or two filters, never share the time of a last callback: only the same agent and
/// the same filter have the same key.
pub proof fn law_every_agent_and_filter_has_its_own_key(
    a: u128,
    f: Seq<char>,
    b: u128,
    g: Seq<char>,
)
    requires
        debounce_key(a, f) == debounce_key(b, g),
    ensures
        a == b,
        f == g,
{
    let ka = debounce_key(a, f);
    let kb = debounce_key(b, g);
    assert(ka.take(36) == ids::uuid_text(a));
    assert(kb.take(36) == ids::uuid_text(b));
    assert(ka.skip(36) == f);
    assert(kb.skip(36) == g);
    ids::law_texts_tell_identifiers_apart(a, b);
}

/// A filter that fired for an agent holds back neither another agent nor another filter.
pub proof fn law_firing_holds_back_no_other(
    last: Map<Seq<char>, u64>,
    agent_id: u128,
    filter: Seq<char>,
    fired_ms: u64,
    other_agent: u128,
    other: CallbackFilter,
    tool: Seq<char>,
    wanted: bool,
    now_ms: u64,
)
    requires
        other_agent != agent_id || other.name@ != filter,
    ensures
        filter_fires(
            last.insert(debounce_key(agent_id, filter), fired_ms),
            other_agent,
            tool,
            wanted,
            other,
            now_ms,
        ) == filter_fires(last, other_agent, tool, wanted, other, now_ms),
{
    if debounce_key(agent_id, filter) == debounce_key(other_agent, other.name@) {
        law_every_agent_and_filter_has_its_own_key(agent_id, filter, other_agent, other.name@);
    }
}

/// Which tool an item is of is told by its type: a command, a change of files, or a tool by its own
/// name; only items that start or are complete are of tools.
pub proof fn law_types_tell_the_tools(method: Seq<char>, params: json::JsonView)
    ensures
        ({
            let item = extract::item_of(params);
            let kind = json::text_of(json::inner(item, "type"@));
            &&& kind == Some("commandExecution"@) ==> tool_of("item/completed"@, params) == Some(
                "exec_command"@,
            ) && tool_of("item/started"@, params) == Some("exec_command"@)
            &&& kind == Some("fileChange"@) ==> tool_of("item/completed"@, params) == Some(
                "apply_patch"@,
            )
            &&& kind == Some("dynamicToolCall"@) ==> tool_of("item/completed"@, params)
                == json::text_of(json::inner(item, "tool"@))
            &&& kind is None ==> tool_of(method, params) is None
            &&& method != "item/completed"@ && method != "item/started"@ ==> tool_of(method, params)
                is None
        }),
{
    reveal_strlit("commandExecution");
    reveal_strlit("fileChange");
    reveal_strlit("dynamicToolCall");
    reveal_strlit("item/completed");
    reveal_strlit("item/started");
    assert("commandExecution"@.len() == 16 && "fileChange"@.len() == 10 && "dynamicToolCall"@.len()
        == 15);
    assert("item/completed"@.len() == 14 && "item/started"@.len() == 12);
}

/// A call is an item that is complete, with its tool and its time; other events are no calls.
pub proof fn law_calls_are_complete_items(e: models::EventView)
    ensures
        call_of(e) is Some <==> e.method == "item/completed"@ && tool_of(e.method, e.params) is Some,
        call_of(e) is Some ==> Some((call_of(e)->0).0) == tool_of("item/completed"@, e.params) && (
        call_of(e)->0).3 == e.ts && (call_of(e)->0).1 == command_of(e.params) && (call_of(
            e,
        )->0).2 == path_of(e.params),
        changes_files("apply_patch"@) && changes_files("write_file"@),
        !changes_files("exec_command"@),
{
    reveal_strlit("apply_patch");
    reveal_strlit("write_file");
    reveal_strlit("exec_command");
    assert("apply_patch"@.len() == 11 && "write_file"@.len() == 10 && "exec_command"@.len() == 12);
}

/// A command is told with its arguments behind it; without an item the command of the event itself
/// is told.
pub proof fn law_commands_are_told_with_their_arguments(params: json::JsonView, s: Seq<char>)
    ensures
        ({
            let item = extract::item_of(params);
            let arguments = json::inner(item, "arguments"@);
            &&& json::inner(item, "command"@) == Some(json::JsonView::Text(s)) && arguments is None
                ==> command_of(params) == Some(s)
            &&& json::inner(item, "command"@) == Some(json::JsonView::Text(s)) && arguments is Some
                && arguments->0 is List && json::only_texts(arguments->0->List_0).len() > 0
                ==> command_of(params) == Some(
                s + " "@ + text::joined(json::only_texts(arguments->0->List_0), " "@),
            )
            &&& item is None && json::member(params, "command"@) == Some(json::JsonView::Text(s))
                ==> command_of(params) == Some(s)
            &&& item is None && json::member(params, "command"@) is None && json::member(
                params,
                "cmd"@,
            ) == Some(json::JsonView::Text(s)) ==> command_of(params) == Some(s)
        }),
{
}

/// The files of a change are those it names, in order; a patch changes all of them, other tools the
/// one file they name.
pub proof fn law_changes_name_their_files(
    changes: Seq<json::JsonView>,
    change: json::JsonView,
    path: Seq<char>,
    params: json::JsonView,
)
    ensures
        json::member(change, "path"@) == Some(json::JsonView::Text(path)) ==> paths_in(
            changes.push(change),
        ) == paths_in(changes).push(path),
        json::member(change, "path"@) is None ==> paths_in(changes.push(change)) == paths_in(
            changes,
        ),
        paths_in(Seq::<json::JsonView>::empty()).len() == 0,
        change_paths(params).len() > 0 ==> path_of(params) == Some(change_paths(params)[0])
            && modified_paths(params, "apply_patch"@) == change_paths(params),
        json::inner(extract::item_of(params), "changes"@) is None && json::member(params, "path"@)
            == Some(json::JsonView::Text(path)) ==> path_of(params) == Some(path)
            && modified_paths(params, "write_file"@) == seq![path],
{
    assert(changes.push(change).drop_last() == changes);
}

/// The exit code of a tool is the one of its item, before the one of the event.
pub proof fn law_exit_codes_come_from_the_item(params: json::JsonView, n: i32)
    ensures
        json::inner(extract::item_of(params), "exit_code"@) == Some(
            json::JsonView::Number(json::NumberView::Whole(n as int)),
        ) ==> exit_code_of(params) == Some(n),
        json::inner(extract::item_of(params), "exit_code"@) is None && json::inner(
            extract::item_of(params),
            "exitCode"@,
        ) == Some(json::JsonView::Number(json::NumberView::Whole(n as int))) ==> exit_code_of(
            params,
        ) == Some(n),
        extract::item_of(params) is None && json::member(params, "exit_code"@) == Some(
            json::JsonView::Number(json::NumberView::Whole(n as int)),
        ) ==> exit_code_of(params) == Some(n),
{
}

/// What a tool put out is told from its end: no more lines than are asked for, and the last ones,
/// as they stand.
pub proof fn law_output_is_told_from_its_end(
    params: json::JsonView,
    output: Seq<char>,
    max_lines: usize,
)
    requires
        json::inner(extract::item_of(params), "output"@) == Some(json::JsonView::Text(output)),
    ensures
        output_tail_of(params, max_lines) matches Some(t) ==> !text::is_blank(t) && exists|n: int|
            0 <= n <= text::lines_of(output).len() && text::lines_of(output).len() - n <= max_lines
                && t == text::joined(#[trigger] text::lines_of(output).skip(n), "\n"@) && (n == 0
                || text::lines_of(output).len() - n == max_lines),
        text::lines_of(output).len() <= max_lines && !text::is_blank(
            text::joined(text::lines_of(output), "\n"@),
        ) ==> output_tail_of(params, max_lines) == Some(
            text::joined(text::lines_of(output), "\n"@),
        ),
{
    let all = text::lines_of(output);
    assert(all.skip(0) == all);
}

/// A pattern without signs of its own is looked for in the command whatever the case, a blank one
/// fits every command, and where there is no command nothing fits.
pub proof fn law_plain_patterns_are_looked_for(command: Seq<char>, pattern: Seq<char>)
    ensures
        text::is_blank(pattern) ==> command_matches(Some(command), pattern),
        !command_matches(None, pattern),
        !text::is_blank(pattern) && !is_regex(pattern) && text::has_text(command, pattern)
            ==> command_matches(Some(command), pattern),
        !text::is_blank(pattern) && !is_regex(pattern) && command_matches(Some(command), pattern)
            ==> text::has_text(text::ascii_lower(command), text::ascii_lower(pattern)),
        (exists|i: int|
            0 <= i < text::trimmed(pattern).len() && #[trigger] text::trimmed(pattern)[i] == '*')
            ==> is_regex(pattern),
        !text::is_blank(pattern) && is_regex(pattern) ==> (command_matches(Some(command), pattern)
            <==> regex_found(undelimited(pattern), command) == Some(true)),
{
    if text::has_text(command, pattern) {
        let i = choose|i: int| text::occurs_at(command, pattern, i);
        let low = text::ascii_lower(command);
        let wanted = text::ascii_lower(pattern);
        let found = low.subrange(i, i + wanted.len());
        assert forall|k: int| 0 <= k < wanted.len() implies found[k] == wanted[k] by {
            assert(command.subrange(i, i + pattern.len())[k] == command[i + k]);
        }
        assert(found == wanted);
        assert(text::occurs_at(low, wanted, i));
    }
    if exists|i: int| 0 <= i < text::trimmed(pattern).len() && #[trigger] text::trimmed(pattern)[i]
        == '*' {
        let i = choose|i: int|
            0 <= i < text::trimmed(pattern).len() && #[trigger] text::trimmed(pattern)[i] == '*';
        assert(is_regex_char(text::trimmed(pattern)[i]));
    }
}

/// A pattern between slashes is what stands between them.
pub proof fn law_slashes_set_patterns_off(inside: Seq<char>)
    ensures
        is_regex(seq!['/'] + inside + seq!['/']),
        undelimited(seq!['/'] + inside + seq!['/']) == inside,
{
    reveal_strlit("/");
    let t = seq!['/'] + inside + seq!['/'];
    assert("/"@.len() == 1 && "/"@[0] == '/');
    assert(t.subrange(0, 1) == "/"@);
    assert(t.subrange(t.len() - 1, t.len() as int) == "/"@);
    assert(text::occurs_at(t, "/"@, 0));
    assert(text::occurs_at(t, "/"@, t.len() - 1));
    assert(!text::is_white('/'));
    assert(!text::in_class(t[0], true, Seq::<char>::empty()));
    assert(!text::in_class(t.last(), true, Seq::<char>::empty()));
    assert(text::trimmed(t) == t);
    assert(t.subrange(1, t.len() - 1) == inside);
}

/// A filter fires for its own tool, whatever the case, where the command is wanted and nothing fired
/// within its time; without such a time it fires each time.
pub proof fn law_filters_fire_for_their_tool(
    last: Map<Seq<char>, u64>,
    agent_id: u128,
    tool: Seq<char>,
    wanted: bool,
    filter: CallbackFilter,
    now_ms: u64,
)
    ensures
        filter_fires(last, agent_id, tool, wanted, filter, now_ms) ==> wanted && text::ascii_lower(
            tool,
        ) == text::ascii_lower(filter.tool@),
        wanted && tool == filter.tool@ && filter.debounce_ms is None ==> filter_fires(
            last,
            agent_id,
            tool,
            wanted,
            filter,
            now_ms,
        ),
        wanted && tool == filter.tool@ && !last.dom().contains(
            debounce_key(agent_id, filter.name@),
        ) ==> filter_fires(last, agent_id, tool, wanted, filter, now_ms),
        wanted && tool == filter.tool@ && last.dom().contains(debounce_key(agent_id, filter.name@))
            && filter.debounce_ms is Some && now_ms >= last[debounce_key(agent_id, filter.name@)]
            && now_ms - last[debounce_key(agent_id, filter.name@)] >= filter.debounce_ms->0
            ==> filter_fires(last, agent_id, tool, wanted, filter, now_ms),
{
}

/// What a tool wrote to its error output and how much it put out are those of its item, before those
/// of the event.
pub proof fn law_output_comes_from_the_item(params: json::JsonView, s: Seq<char>, n: usize)
    ensures
        json::inner(extract::item_of(params), "stderr"@) == Some(json::JsonView::Text(s))
            ==> stderr_of(params) == Some(s),
        extract::item_of(params) is None && json::member(params, "stderr"@) == Some(
            json::JsonView::Text(s),
        ) ==> stderr_of(params) == Some(s),
        json::inner(extract::item_of(params), "bytes"@) == Some(
            json::JsonView::Number(json::NumberView::Whole(n as int)),
        ) ==> bytes_of(params) == Some(n),
        extract::item_of(params) is None && json::member(params, "bytes"@) == Some(
            json::JsonView::Number(json::NumberView::Whole(n as int)),
        ) ==> bytes_of(params) == Some(n),
{
}

} // verus!

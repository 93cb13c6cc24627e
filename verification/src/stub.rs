//! An app server that answers without a model behind it, for trying the service out.
use vstd::prelude::*;

use crate::json;
use crate::json::{text_in, Json};
use crate::json_build;
use crate::json_build::{empty_list, empty_object, object1, object2, object3, push_entry};
use crate::json_search;
use crate::json_text;
use crate::json_text::parse_json;
use crate::payload::signed_json;
use crate::protocol;
use crate::protocol::parse_id_field;
use crate::text;
use crate::text::{same_text, trim};
use crate::text_map::TextMap;
use crate::text_search::{contains, decimal_text, join};

verus! {

/// What the server remembers: how many threads and turns it has named, and the threads that have
/// stalled.
#[derive(Debug)]
pub struct StubServer {
    pub threads: u64,
    pub turns: u64,
    pub stalled: TextMap<bool>,
}

/// What the server remembers.
pub struct StubView {
    pub threads: u64,
    pub turns: u64,
    pub stalled: Set<Seq<char>>,
}

impl View for StubServer {
    type V = StubView;

    open spec fn view(&self) -> StubView {
        StubView { threads: self.threads, turns: self.turns, stalled: self.stalled@.dom() }
    }
}

/// The next count. After the greatest comes zero.
pub open spec fn next_count(n: u64) -> u64 {
    if n == u64::MAX {
        0
    } else {
        (n + 1) as u64
    }
}

/// What a line gets.
#[derive(Debug)]
pub enum Reply {
    /// Nothing: it is blank, or it is no request.
    Nothing,
    /// Nothing: it is no JSON.
    InvalidJson,
    /// Messages, in order.
    Messages(Vec<Json>),
}

/// The answer to a request.
pub open spec fn response(id: json::JsonView, result: json::JsonView) -> json::JsonView {
    json::JsonView::Object(
        seq![("jsonrpc"@, json::JsonView::Text("2.0"@)), ("id"@, id), ("result"@, result)],
    )
}

/// The refusal of a request.
pub open spec fn refusal(id: json::JsonView, code: int, message: Seq<char>) -> json::JsonView {
    json::JsonView::Object(
        seq![
            ("jsonrpc"@, json::JsonView::Text("2.0"@)),
            ("id"@, id),
            (
                "error"@,
                json::JsonView::Object(
                    seq![
                        ("code"@, json_build::whole(code)),
                        ("message"@, json::JsonView::Text(message)),
                    ],
                ),
            ),
        ],
    )
}

/// A notification.
pub open spec fn notice(method: Seq<char>, params: json::JsonView) -> json::JsonView {
    json::JsonView::Object(
        seq![
            ("jsonrpc"@, json::JsonView::Text("2.0"@)),
            ("method"@, json::JsonView::Text(method)),
            ("params"@, params),
        ],
    )
}

/// An object whose entries are texts.
pub open spec fn texts_object(entries: Seq<(Seq<char>, Seq<char>)>) -> json::JsonView {
    json::JsonView::Object(
        entries.map_values(|e: (Seq<char>, Seq<char>)| (e.0, json::JsonView::Text(e.1))),
    )
}

/// The keys under which a parameter may stand.
pub open spec fn keys_for(stem: Seq<char>) -> Seq<Seq<char>> {
    if stem == "thread"@ || stem == "thread_id"@ {
        seq!["threadId"@, "thread_id"@]
    } else if stem == "turn"@ || stem == "turn_id"@ {
        seq!["turnId"@, "turn_id"@]
    } else if stem == "expected_turn"@ || stem == "expectedTurnId"@ {
        seq!["expectedTurnId"@, "expected_turn_id"@, "expectedTurn"@, "expected_turn"@]
    } else {
        seq![stem]
    }
}

/// A parameter, or what stands in for it.
pub open spec fn param_or(params: json::JsonView, stem: Seq<char>, other: Seq<char>) -> Seq<char> {
    match protocol::id_under(Some(params), keys_for(stem)) {
        Some(v) => v,
        None => other,
    }
}

/// A parameter that is a text or a number.
pub fn parse_string_param(params: &Json, stem: &str) -> (r: Option<String>)
    ensures
        text::opt_text(r) == protocol::id_under(Some(params@), keys_for(stem@)),
{
    let keys: Vec<&str> = if same_text(stem, "thread") || same_text(stem, "thread_id") {
        vec!["threadId", "thread_id"]
    } else if same_text(stem, "turn") || same_text(stem, "turn_id") {
        vec!["turnId", "turn_id"]
    } else if same_text(stem, "expected_turn") || same_text(stem, "expectedTurnId") {
        vec!["expectedTurnId", "expected_turn_id", "expectedTurn", "expected_turn"]
    } else {
        vec![stem]
    };
    assert(json_search::key_texts(keys@) == keys_for(stem@));
    parse_id_field(Some(params), &keys)
}

fn param_text(params: &Json, stem: &str, other: &str) -> (r: String)
    ensures
        r@ == param_or(params@, stem@, other@),
{
    match parse_string_param(params, stem) {
        Some(v) => v,
        None => other.to_owned(),
    }
}

/// The texts of the segments of a message.
pub open spec fn segment_texts(segments: Seq<json::JsonView>) -> Seq<Seq<char>>
    decreases segments.len(),
{
    if segments.len() == 0 {
        Seq::empty()
    } else {
        let before = segment_texts(segments.drop_last());
        match json::text_of(json::member(segments.last(), "text"@)) {
            Some(t) => before.push(t),
            None => before,
        }
    }
}

/// The texts of a message: its own, or else those of its segments.
pub open spec fn message_texts(message: json::JsonView) -> Seq<Seq<char>> {
    match json::text_of(json::member(message, "text"@)) {
        Some(t) => seq![t],
        None => match json::member(message, "content"@) {
            Some(json::JsonView::List(segments)) => segment_texts(segments),
            _ => Seq::empty(),
        },
    }
}

/// The texts of messages.
pub open spec fn messages_texts(messages: Seq<json::JsonView>) -> Seq<Seq<char>>
    decreases messages.len(),
{
    if messages.len() == 0 {
        Seq::empty()
    } else {
        messages_texts(messages.drop_last()) + message_texts(messages.last())
    }
}

/// The text of a prompt.
pub open spec fn prompt_text(input: json::JsonView) -> Seq<char> {
    match input {
        json::JsonView::List(messages) => text::joined(messages_texts(messages), " "@),
        _ => Seq::empty(),
    }
}

fn push_segment_texts(parts: &mut Vec<String>, segments: &Vec<Json>)
    ensures
        text::texts(final(parts)@) == text::texts(old(parts)@) + segment_texts(
            json::list_model(segments@),
        ),
{
    let ghost base = text::texts(parts@);
    let ghost all = json::list_model(segments@);
    let mut i: usize = 0;
    proof {
        json::lemma_list_model(segments@);
        assert(all.take(0) == Seq::<json::JsonView>::empty());
        assert(base + segment_texts(all.take(0)) == base);
    }
    while i < segments.len()
        invariant
            i <= segments@.len(),
            all.len() == segments@.len(),
            forall|k: int| 0 <= k < segments@.len() ==> #[trigger] all[k] == segments@[k]@,
            text::texts(parts@) == base + segment_texts(all.take(i as int)),
        decreases segments@.len() - i,
    {
        let ghost before = text::texts(parts@);
        proof {
            assert(all.take(i + 1).drop_last() == all.take(i as int));
            assert(all.take(i + 1).last() == all[i as int]);
        }
        if let Some(t) = text_in(segments[i].get("text")) {
            parts.push(t);
            assert(text::texts(parts@) == before.push(t@));
        }
        assert(text::texts(parts@) == base + segment_texts(all.take(i + 1)));
        i += 1;
    }
    assert(all.take(i as int) == all);
}

/// The text of a prompt.
pub fn extract_prompt_text_from_input(input: &Json) -> (r: String)
    ensures
        r@ == prompt_text(input@),
{
    let messages = match input {
        Json::List(messages) => messages,
        _ => {
            return String::new();
        },
    };
    let mut parts: Vec<String> = Vec::new();
    let ghost all = json::list_model(messages@);
    let mut i: usize = 0;
    proof {
        json::lemma_list_model(messages@);
        assert(all.take(0) == Seq::<json::JsonView>::empty());
        assert(text::texts(parts@) == messages_texts(all.take(0)));
    }
    while i < messages.len()
        invariant
            i <= messages@.len(),
            all.len() == messages@.len(),
            forall|k: int| 0 <= k < messages@.len() ==> #[trigger] all[k] == messages@[k]@,
            text::texts(parts@) == messages_texts(all.take(i as int)),
        decreases messages@.len() - i,
    {
        let ghost before = text::texts(parts@);
        proof {
            assert(all.take(i + 1).drop_last() == all.take(i as int));
            assert(all.take(i + 1).last() == all[i as int]);
        }
        match text_in(messages[i].get("text")) {
            Some(t) => {
                parts.push(t);
                assert(text::texts(parts@) == before.push(t@));
            },
            None => {
                if let Some(Json::List(segments)) = messages[i].get("content") {
                    push_segment_texts(&mut parts, segments);
                }
            },
        }
        assert(text::texts(parts@) == messages_texts(all.take(i + 1)));
        i += 1;
    }
    assert(all.take(i as int) == all);
    join(&parts, " ")
}

/// Whether a prompt asks the server to stall once.
pub fn has_stall_marker(prompt: &str) -> (r: bool)
    ensures
        r == text::has_text(prompt@, "STALL_ONCE_THEN_COMPLETE"@),
{
    contains(prompt, "STALL_ONCE_THEN_COMPLETE")
}

/// The parameters of a request.
pub open spec fn params_of(request: json::JsonView) -> json::JsonView {
    match json::member(request, "params"@) {
        Some(p) => p,
        None => json::JsonView::Object(Seq::empty()),
    }
}

/// The name of a request.
pub open spec fn method_of(request: json::JsonView) -> Seq<char> {
    match json::text_of(json::member(request, "method"@)) {
        Some(m) => m,
        None => Seq::empty(),
    }
}

/// The thread that a request for a thread gets.
pub open spec fn new_thread(v: StubView, params: json::JsonView) -> Seq<char> {
    param_or(params, "thread"@, "thread-"@ + text::decimal(v.threads as nat))
}

/// The turn that comes next.
pub open spec fn new_turn(v: StubView) -> Seq<char> {
    "turn-"@ + text::decimal(v.turns as nat)
}

/// The prompt of a request for a turn.
pub open spec fn input_of(params: json::JsonView) -> json::JsonView {
    match json::member(params, "input"@) {
        Some(i) => i,
        None => json::JsonView::List(Seq::empty()),
    }
}

/// Whether a turn stalls: where its prompt asks for it and its thread has not stalled yet.
pub open spec fn stalls(v: StubView, params: json::JsonView) -> bool {
    &&& text::has_text(prompt_text(input_of(params)), "STALL_ONCE_THEN_COMPLETE"@)
    &&& !v.stalled.contains(param_or(params, "thread"@, "thread-unknown"@))
}

/// The state of the server after a request.
pub open spec fn after_request(v: StubView, request: json::JsonView) -> StubView {
    let method = method_of(request);
    let params = params_of(request);
    if method == "thread/start"@ {
        StubView {
            threads: if protocol::id_under(Some(params), keys_for("thread"@)) is None {
                next_count(v.threads)
            } else {
                v.threads
            },
            ..v
        }
    } else if method == "turn/start"@ {
        StubView {
            turns: next_count(v.turns),
            stalled: if stalls(v, params) {
                v.stalled.insert(param_or(params, "thread"@, "thread-unknown"@))
            } else {
                v.stalled
            },
            ..v
        }
    } else if method == "turn/steer"@ {
        StubView { turns: next_count(v.turns), ..v }
    } else if method == "turn/interrupt"@ {
        StubView {
            stalled: v.stalled.remove(param_or(params, "thread"@, "thread-unknown"@)),
            ..v
        }
    } else {
        v
    }
}

/// The parameters of a notification on a turn.
pub open spec fn turn_params(thread: Seq<char>, turn: Seq<char>) -> Seq<(Seq<char>, Seq<char>)> {
    seq![("thread_id"@, thread), ("turn_id"@, turn)]
}

/// The parameters of a notification on a turn that has ended.
pub open spec fn completed_params(thread: Seq<char>, turn: Seq<char>, said: Seq<char>) -> json::JsonView {
    json::JsonView::Object(
        seq![
            ("thread_id"@, json::JsonView::Text(thread)),
            ("turn_id"@, json::JsonView::Text(turn)),
            ("status"@, json::JsonView::Text("completed"@)),
            (
                "items"@,
                json::JsonView::List(
                    seq![texts_object(seq![("type"@, "text"@), ("text"@, said)])],
                ),
            ),
        ],
    )
}

/// What is told of a turn that does its work.
pub open spec fn turn_work(thread: Seq<char>, turn: Seq<char>) -> Seq<json::JsonView> {
    let base = turn_params(thread, turn);
    seq![
        notice(
            "codex/event/exec_command_begin"@,
            texts_object(base.push(("command"@, "mock-cmd"@))),
        ),
        notice(
            "item/commandExecution"@,
            texts_object(
                base.push(("status"@, "start"@)).push(("command"@, "mock-cmd"@)).push(
                    ("type"@, "commandExecution"@),
                ),
            ),
        ),
        notice(
            "item/assistantMessage/delta"@,
            texts_object(
                base.push(("text"@, "Mock command executed"@)).push(("type"@, "agentMessage"@)),
            ),
        ),
        notice(
            "codex/event/exec_command_end"@,
            texts_object(base.push(("command"@, "mock-cmd"@))),
        ),
        notice("turn/completed"@, completed_params(thread, turn, "worker complete"@)),
    ]
}

/// What is told of a turn that starts.
pub open spec fn turn_start(id: json::JsonView, thread: Seq<char>, turn: Seq<char>) -> Seq<
    json::JsonView,
> {
    let base = turn_params(thread, turn);
    seq![
        response(id, texts_object(seq![("turn_id"@, turn)])),
        notice(
            "thread/status/changed"@,
            texts_object(seq![("thread_id"@, thread), ("status"@, "running"@)]),
        ),
        notice("turn/started"@, texts_object(base.push(("status"@, "running"@)))),
        notice(
            "item/assistantMessage"@,
            texts_object(
                base.push(("text"@, "Worker acknowledged instructions"@)).push(
                    ("type"@, "agentMessage"@),
                ),
            ),
        ),
    ]
}

/// What is told of a turn that is steered.
pub open spec fn turn_steer(
    id: json::JsonView,
    thread: Seq<char>,
    turn: Seq<char>,
    expected: Seq<char>,
) -> Seq<json::JsonView> {
    let base = turn_params(thread, turn);
    seq![
        response(id, texts_object(seq![("turn_id"@, turn), ("expected_turn_id"@, expected)])),
        notice("turn/started"@, texts_object(base.push(("status"@, "running"@)))),
        notice(
            "item/agentMessage"@,
            texts_object(
                base.push(("text"@, "Steering request accepted"@)).push(
                    ("type"@, "agentMessage"@),
                ),
            ),
        ),
        notice("turn/completed"@, completed_params(thread, turn, "steered"@)),
    ]
}

/// The messages that a request gets.
pub open spec fn messages_for(v: StubView, id: json::JsonView, request: json::JsonView) -> Seq<
    json::JsonView,
> {
    let method = method_of(request);
    let params = params_of(request);
    let thread = param_or(params, "thread"@, "thread-unknown"@);
    if method == "initialize"@ {
        seq![response(id, json::JsonView::Object(Seq::empty()))]
    } else if method == "model/list"@ {
        seq![
            response(
                id,
                json::JsonView::Object(
                    seq![
                        (
                            "data"@,
                            json::JsonView::List(
                                seq![
                                    texts_object(
                                        seq![
                                            ("model"@, "gpt-5.3-codex-spark"@),
                                            ("provider"@, "mock"@),
                                        ],
                                    ),
                                ],
                            ),
                        ),
                    ],
                ),
            ),
        ]
    } else if method == "thread/start"@ {
        let named = new_thread(v, params);
        seq![
            response(id, texts_object(seq![("thread_id"@, named)])),
            notice(
                "thread/status/changed"@,
                texts_object(seq![("thread_id"@, named), ("status"@, "running"@)]),
            ),
        ]
    } else if method == "turn/start"@ {
        let turn = new_turn(v);
        turn_start(id, thread, turn) + (if stalls(v, params) {
            Seq::empty()
        } else {
            turn_work(thread, turn)
        })
    } else if method == "turn/steer"@ {
        turn_steer(id, thread, new_turn(v), param_or(params, "expected_turn"@, "turn-unknown"@))
    } else if method == "turn/interrupt"@ {
        seq![
            response(id, json::JsonView::Object(Seq::empty())),
            notice(
                "turn/aborted"@,
                texts_object(turn_params(thread, param_or(params, "turn"@, "turn-unknown"@))),
            ),
        ]
    } else {
        seq![refusal(id, -32601, "unsupported method: "@ + method)]
    }
}

fn text_value(s: &str) -> (r: Json)
    ensures
        r@ == json::JsonView::Text(s@),
{
    Json::Text(s.to_owned())
}

/// The entries behind pairs of texts.
pub open spec fn pair_texts(pairs: Seq<(&str, &str)>) -> Seq<(Seq<char>, Seq<char>)> {
    pairs.map_values(|p: (&str, &str)| (p.0@, p.1@))
}

fn write_texts_object(pairs: &Vec<(&str, &str)>) -> (r: Json)
    ensures
        r@ == texts_object(pair_texts(pairs@)),
{
    let ghost all = pair_texts(pairs@).map_values(
        |e: (Seq<char>, Seq<char>)| (e.0, json::JsonView::Text(e.1)),
    );
    let mut items: Vec<(String, Json)> = Vec::new();
    let mut i: usize = 0;
    assert(json::entries_model(items@) == all.take(0));
    while i < pairs.len()
        invariant
            i <= pairs@.len(),
            all == pair_texts(pairs@).map_values(
                |e: (Seq<char>, Seq<char>)| (e.0, json::JsonView::Text(e.1)),
            ),
            json::entries_model(items@) == all.take(i as int),
        decreases pairs@.len() - i,
    {
        let (key, value) = pairs[i];
        push_entry(&mut items, key, text_value(value));
        assert(json::entries_model(items@) == all.take(i + 1));
        i += 1;
    }
    assert(all.take(i as int) == all);
    Json::Object(items)
}

fn write_response(id: &Json, result: Json) -> (r: Json)
    ensures
        r@ == response(id@, result@),
{
    object3("jsonrpc", text_value("2.0"), "id", id.clone(), "result", result)
}

fn write_refusal(id: &Json, code: i64, message: &str) -> (r: Json)
    ensures
        r@ == refusal(id@, code as int, message@),
{
    let error = object2("code", signed_json(code), "message", text_value(message));
    object3("jsonrpc", text_value("2.0"), "id", id.clone(), "error", error)
}

fn write_notice(method: &str, params: Json) -> (r: Json)
    ensures
        r@ == notice(method@, params@),
{
    object3("jsonrpc", text_value("2.0"), "method", text_value(method), "params", params)
}

fn write_list(value: Json) -> (r: Json)
    ensures
        r@ == json::JsonView::List(seq![value@]),
{
    let mut items: Vec<Json> = Vec::new();
    items.push(value);
    proof {
        json::lemma_list_model(items@);
        assert(json::list_model(items@) == seq![value@]);
    }
    Json::List(items)
}

fn write_completed(thread: &str, turn: &str, said: &str) -> (r: Json)
    ensures
        r@ == completed_params(thread@, turn@, said@),
{
    let said_pairs: Vec<(&str, &str)> = vec![("type", "text"), ("text", said)];
    assert(pair_texts(said_pairs@) == seq![("type"@, "text"@), ("text"@, said@)]);
    let list = write_list(write_texts_object(&said_pairs));
    let mut items: Vec<(String, Json)> = Vec::new();
    assert(json::entries_model(items@) == Seq::<(Seq<char>, json::JsonView)>::empty());
    push_entry(&mut items, "thread_id", text_value(thread));
    push_entry(&mut items, "turn_id", text_value(turn));
    push_entry(&mut items, "status", text_value("completed"));
    push_entry(&mut items, "items", list);
    assert(json::entries_model(items@) == seq![
        ("thread_id"@, json::JsonView::Text(thread@)),
        ("turn_id"@, json::JsonView::Text(turn@)),
        ("status"@, json::JsonView::Text("completed"@)),
        ("items"@, list@),
    ]);
    Json::Object(items)
}

/// Adds a notification whose parameters are texts.
fn push_notice(out: &mut Vec<Json>, method: &str, pairs: &Vec<(&str, &str)>)
    ensures
        json::list_model(final(out)@) == json::list_model(old(out)@).push(
            notice(method@, texts_object(pair_texts(pairs@))),
        ),
{
    let message = write_notice(method, write_texts_object(pairs));
    assert(out@.push(message).drop_last() == out@);
    out.push(message);
}

fn push_message(out: &mut Vec<Json>, message: Json)
    ensures
        json::list_model(final(out)@) == json::list_model(old(out)@).push(message@),
{
    assert(out@.push(message).drop_last() == out@);
    out.push(message);
}

fn push_turn_start(out: &mut Vec<Json>, id: &Json, thread: &str, turn: &str)
    ensures
        json::list_model(final(out)@) == json::list_model(old(out)@) + turn_start(
            id@,
            thread@,
            turn@,
        ),
{
    let ghost base = json::list_model(out@);
    let ghost told = turn_params(thread@, turn@);
    push_message(out, write_response(id, object1("turn_id", text_value(turn))));
    let changed: Vec<(&str, &str)> = vec![("thread_id", thread), ("status", "running")];
    push_notice(out, "thread/status/changed", &changed);
    let started: Vec<(&str, &str)> =
        vec![("thread_id", thread), ("turn_id", turn), ("status", "running")];
    push_notice(out, "turn/started", &started);
    let message: Vec<(&str, &str)> = vec![
        ("thread_id", thread),
        ("turn_id", turn),
        ("text", "Worker acknowledged instructions"),
        ("type", "agentMessage"),
    ];
    push_notice(out, "item/assistantMessage", &message);
    proof {
        assert(texts_object(seq![("turn_id"@, turn@)]) == json::JsonView::Object(
            seq![("turn_id"@, json::JsonView::Text(turn@))],
        )) by {
            assert(seq![("turn_id"@, turn@)].map_values(
                |e: (Seq<char>, Seq<char>)| (e.0, json::JsonView::Text(e.1)),
            ) == seq![("turn_id"@, json::JsonView::Text(turn@))]);
        }
        assert(pair_texts(changed@) == seq![("thread_id"@, thread@), ("status"@, "running"@)]);
        assert(pair_texts(started@) == told.push(("status"@, "running"@)));
        assert(pair_texts(message@) == told.push(
            ("text"@, "Worker acknowledged instructions"@),
        ).push(("type"@, "agentMessage"@)));
        assert(json::list_model(out@) == base + turn_start(id@, thread@, turn@));
    }
}

fn push_turn_work(out: &mut Vec<Json>, thread: &str, turn: &str)
    ensures
        json::list_model(final(out)@) == json::list_model(old(out)@) + turn_work(thread@, turn@),
{
    let ghost base = json::list_model(out@);
    let ghost told = turn_params(thread@, turn@);
    let command: Vec<(&str, &str)> =
        vec![("thread_id", thread), ("turn_id", turn), ("command", "mock-cmd")];
    push_notice(out, "codex/event/exec_command_begin", &command);
    let run: Vec<(&str, &str)> = vec![
        ("thread_id", thread),
        ("turn_id", turn),
        ("status", "start"),
        ("command", "mock-cmd"),
        ("type", "commandExecution"),
    ];
    push_notice(out, "item/commandExecution", &run);
    let delta: Vec<(&str, &str)> = vec![
        ("thread_id", thread),
        ("turn_id", turn),
        ("text", "Mock command executed"),
        ("type", "agentMessage"),
    ];
    push_notice(out, "item/assistantMessage/delta", &delta);
    push_notice(out, "codex/event/exec_command_end", &command);
    push_message(
        out,
        write_notice("turn/completed", write_completed(thread, turn, "worker complete")),
    );
    proof {
        assert(pair_texts(command@) == told.push(("command"@, "mock-cmd"@)));
        assert(pair_texts(run@) == told.push(("status"@, "start"@)).push(
            ("command"@, "mock-cmd"@),
        ).push(("type"@, "commandExecution"@)));
        assert(pair_texts(delta@) == told.push(("text"@, "Mock command executed"@)).push(
            ("type"@, "agentMessage"@),
        ));
        assert(json::list_model(out@) == base + turn_work(thread@, turn@));
    }
}

fn push_turn_steer(out: &mut Vec<Json>, id: &Json, thread: &str, turn: &str, expected: &str)
    ensures
        json::list_model(final(out)@) == json::list_model(old(out)@) + turn_steer(
            id@,
            thread@,
            turn@,
            expected@,
        ),
{
    let ghost base = json::list_model(out@);
    let ghost told = turn_params(thread@, turn@);
    let answer: Vec<(&str, &str)> = vec![("turn_id", turn), ("expected_turn_id", expected)];
    push_message(out, write_response(id, write_texts_object(&answer)));
    let started: Vec<(&str, &str)> =
        vec![("thread_id", thread), ("turn_id", turn), ("status", "running")];
    push_notice(out, "turn/started", &started);
    let message: Vec<(&str, &str)> = vec![
        ("thread_id", thread),
        ("turn_id", turn),
        ("text", "Steering request accepted"),
        ("type", "agentMessage"),
    ];
    push_notice(out, "item/agentMessage", &message);
    push_message(out, write_notice("turn/completed", write_completed(thread, turn, "steered")));
    proof {
        assert(pair_texts(answer@) == seq![("turn_id"@, turn@), ("expected_turn_id"@, expected@)]);
        assert(pair_texts(started@) == told.push(("status"@, "running"@)));
        assert(pair_texts(message@) == told.push(("text"@, "Steering request accepted"@)).push(
            ("type"@, "agentMessage"@),
        ));
        assert(json::list_model(out@) == base + turn_steer(id@, thread@, turn@, expected@));
    }
}

fn push_model_list(out: &mut Vec<Json>, id: &Json)
    ensures
        json::list_model(final(out)@) == json::list_model(old(out)@).push(
            response(
                id@,
                json::JsonView::Object(
                    seq![
                        (
                            "data"@,
                            json::JsonView::List(
                                seq![
                                    texts_object(
                                        seq![
                                            ("model"@, "gpt-5.3-codex-spark"@),
                                            ("provider"@, "mock"@),
                                        ],
                                    ),
                                ],
                            ),
                        ),
                    ],
                ),
            ),
        ),
{
    let model: Vec<(&str, &str)> =
        vec![("model", "gpt-5.3-codex-spark"), ("provider", "mock")];
    assert(pair_texts(model@) == seq![
        ("model"@, "gpt-5.3-codex-spark"@),
        ("provider"@, "mock"@),
    ]);
    let result = object1("data", write_list(write_texts_object(&model)));
    push_message(out, write_response(id, result));
}

/// The methods that change what the server remembers are told apart from each other and from the
/// two that do not.
proof fn lemma_methods_differ()
    ensures
        "initialize"@ != "thread/start"@,
        "initialize"@ != "turn/start"@,
        "initialize"@ != "turn/steer"@,
        "initialize"@ != "turn/interrupt"@,
        "model/list"@ != "thread/start"@,
        "model/list"@ != "turn/start"@,
        "model/list"@ != "turn/steer"@,
        "model/list"@ != "turn/interrupt"@,
        "thread/start"@ != "turn/start"@,
{
    reveal_strlit("initialize");
    reveal_strlit("model/list");
    reveal_strlit("thread/start");
    reveal_strlit("turn/start");
    reveal_strlit("turn/steer");
    reveal_strlit("turn/interrupt");
    assert("initialize"@[0] == 'i');
    assert("model/list"@[0] == 'm');
    assert("thread/start"@[1] == 'h');
    assert("turn/start"@[0] == 't');
    assert("turn/start"@[1] == 'u');
    assert("turn/steer"@[0] == 't');
    assert("turn/interrupt"@.len() == 14);
    assert("thread/start"@.len() == 12);
}

impl StubServer {
    /// A server that has named nothing yet.
    pub fn new() -> (r: Self)
        ensures
            r@.threads == 0,
            r@.turns == 0,
            r@.stalled == Set::<Seq<char>>::empty(),
    {
        let r = StubServer { threads: 0, turns: 0, stalled: TextMap::new() };
        assert(r@.stalled == Set::<Seq<char>>::empty());
        r
    }

    fn start_thread(&mut self, id: &Json, params: &Json, out: &mut Vec<Json>)
        ensures
            ({
                let named = new_thread(old(self)@, params@);
                json::list_model(final(out)@) == json::list_model(old(out)@) + seq![
                    response(id@, texts_object(seq![("thread_id"@, named)])),
                    notice(
                        "thread/status/changed"@,
                        texts_object(seq![("thread_id"@, named), ("status"@, "running"@)]),
                    ),
                ]
            }),
            final(self)@ == (StubView {
                threads: if protocol::id_under(Some(params@), keys_for("thread"@)) is None {
                    next_count(old(self)@.threads)
                } else {
                    old(self)@.threads
                },
                ..old(self)@
            }),
    {
        let ghost base = json::list_model(out@);
        let named = match parse_string_param(params, "thread") {
            Some(named) => named,
            None => {
                let mut named = "thread-".to_owned();
                named.append(decimal_text(self.threads as u128).as_str());
                self.threads = if self.threads == u64::MAX {
                    0
                } else {
                    self.threads + 1
                };
                named
            },
        };
        let answer: Vec<(&str, &str)> = vec![("thread_id", named.as_str())];
        push_message(out, write_response(id, write_texts_object(&answer)));
        let changed: Vec<(&str, &str)> =
            vec![("thread_id", named.as_str()), ("status", "running")];
        push_notice(out, "thread/status/changed", &changed);
        proof {
            assert(pair_texts(answer@) == seq![("thread_id"@, named@)]);
            assert(pair_texts(changed@) == seq![("thread_id"@, named@), ("status"@, "running"@)]);
            assert(json::list_model(out@) == base + seq![
                response(id@, texts_object(seq![("thread_id"@, named@)])),
                notice(
                    "thread/status/changed"@,
                    texts_object(seq![("thread_id"@, named@), ("status"@, "running"@)]),
                ),
            ]);
        }
    }

    fn take_turn(&mut self) -> (r: String)
        ensures
            r@ == new_turn(old(self)@),
            final(self)@ == (StubView { turns: next_count(old(self)@.turns), ..old(self)@ }),
    {
        let mut turn = "turn-".to_owned();
        turn.append(decimal_text(self.turns as u128).as_str());
        self.turns = if self.turns == u64::MAX {
            0
        } else {
            self.turns + 1
        };
        turn
    }

    /// Answers a request.
    pub fn answer(&mut self, id: &Json, request: &Json) -> (r: Vec<Json>)
        ensures
            json::list_model(r@) == messages_for(old(self)@, id@, request@),
            final(self)@ == after_request(old(self)@, request@),
    {
        let ghost before = self@;
        let method = match text_in(request.get("method")) {
            Some(m) => m,
            None => String::new(),
        };
        let params = match request.get("params") {
            Some(p) => p.clone(),
            None => empty_object(),
        };
        assert(method@ == method_of(request@));
        assert(params@ == params_of(request@));
        let mut out: Vec<Json> = Vec::new();
        assert(json::list_model(out@) == Seq::<json::JsonView>::empty());
        proof {
            lemma_methods_differ();
        }
        if same_text(method.as_str(), "initialize") {
            push_message(&mut out, write_response(id, empty_object()));
        } else if same_text(method.as_str(), "model/list") {
            push_model_list(&mut out, id);
        } else if same_text(method.as_str(), "thread/start") {
            self.start_thread(id, &params, &mut out);
        } else if same_text(method.as_str(), "turn/start") {
            let thread = param_text(&params, "thread", "thread-unknown");
            let input = match params.get("input") {
                Some(i) => i.clone(),
                None => empty_list(),
            };
            assert(input@ == input_of(params@));
            let prompt = extract_prompt_text_from_input(&input);
            let stall = has_stall_marker(prompt.as_str()) && !self.stalled.contains_key(
                thread.as_str(),
            );
            assert(stall == stalls(before, params@));
            let turn = self.take_turn();
            push_turn_start(&mut out, id, thread.as_str(), turn.as_str());
            if stall {
                self.stalled.insert(thread, true);
            } else {
                push_turn_work(&mut out, thread.as_str(), turn.as_str());
            }
        } else if same_text(method.as_str(), "turn/steer") {
            let thread = param_text(&params, "thread", "thread-unknown");
            let expected = param_text(&params, "expected_turn", "turn-unknown");
            let turn = self.take_turn();
            push_turn_steer(
                &mut out,
                id,
                thread.as_str(),
                turn.as_str(),
                expected.as_str(),
            );
        } else if same_text(method.as_str(), "turn/interrupt") {
            let thread = param_text(&params, "thread", "thread-unknown");
            let turn = param_text(&params, "turn", "turn-unknown");
            self.stalled.remove(thread.as_str());
            push_message(&mut out, write_response(id, empty_object()));
            let aborted: Vec<(&str, &str)> =
                vec![("thread_id", thread.as_str()), ("turn_id", turn.as_str())];
            assert(pair_texts(aborted@) == turn_params(thread@, turn@));
            push_notice(&mut out, "turn/aborted", &aborted);
        } else {
            let mut message = "unsupported method: ".to_owned();
            message.append(method.as_str());
            push_message(&mut out, write_refusal(id, -32601, message.as_str()));
        }
        proof {
            assert(json::list_model(out@) == messages_for(before, id@, request@));
            assert(self@.stalled == after_request(before, request@).stalled);
        }
        out
    }

    /// Answers a value that is a request, which has an identifier.
    pub fn handle_request(&mut self, request: &Json) -> (r: Option<Vec<Json>>)
        ensures
            match json::member(request@, "id"@) {
                Some(id) => {
                    &&& r matches Some(messages) && json::list_model(messages@) == messages_for(
                        old(self)@,
                        id,
                        request@,
                    )
                    &&& final(self)@ == after_request(old(self)@, request@)
                },
                None => r is None && final(self)@ == old(self)@,
            },
    {
        match request.get("id") {
            Some(id) => {
                let id = id.clone();
                Some(self.answer(&id, request))
            },
            None => None,
        }
    }

    /// Answers a line.
    pub fn run_stub_server(&mut self, line: &str) -> (r: Reply)
        ensures
            ({
                let s = text::trimmed(line@);
                if s.len() == 0 {
                    r is Nothing && final(self)@ == old(self)@
                } else {
                    match json_text::parsed(s) {
                        None => r is InvalidJson && final(self)@ == old(self)@,
                        Some(request) => match json::member(request, "id"@) {
                            None => r is Nothing && final(self)@ == old(self)@,
                            Some(id) => {
                                &&& r matches Reply::Messages(messages) && json::list_model(
                                    messages@,
                                ) == messages_for(old(self)@, id, request)
                                &&& final(self)@ == after_request(old(self)@, request)
                            },
                        },
                    }
                }
            }),
    {
        let s = trim(line);
        if s.as_str().is_empty() {
            return Reply::Nothing;
        }
        match parse_json(s.as_str()) {
            None => Reply::InvalidJson,
            Some(request) => match self.handle_request(&request) {
                Some(messages) => Reply::Messages(messages),
                None => Reply::Nothing,
            },
        }
    }
}

/// A thread stalls at most once: where a turn of it has stalled, the next one does its work, until
/// the thread is interrupted.
pub proof fn law_threads_stall_once(
    v: StubView,
    first: json::JsonView,
    again: json::JsonView,
)
    requires
        method_of(first) == "turn/start"@,
        stalls(v, params_of(first)),
        param_or(params_of(again), "thread"@, "thread-unknown"@) == param_or(
            params_of(first),
            "thread"@,
            "thread-unknown"@,
        ),
    ensures
        !stalls(after_request(v, first), params_of(again)),
{
    lemma_methods_differ();
}

/// Each request is answered first of all under its own identifier, in the words of the protocol.
pub proof fn law_requests_are_answered_under_their_id(
    v: StubView,
    id: json::JsonView,
    request: json::JsonView,
)
    ensures
        ({
            let out = messages_for(v, id, request);
            &&& out.len() > 0
            &&& json::member(out[0], "id"@) == Some(id)
            &&& json::member(out[0], "jsonrpc"@) == Some(json::JsonView::Text("2.0"@))
        }),
{
    reveal_strlit("id");
    reveal_strlit("jsonrpc");
    assert("id"@.len() == 2 && "jsonrpc"@.len() == 7);
    let out = messages_for(v, id, request);
    let items = out[0]->Object_0;
    assert(items[0].0 == "jsonrpc"@ && items[1] == ("id"@, id));
    assert(items.skip(1)[0] == items[1]);
    assert(json::entry_value(items.skip(1), "id"@) == Some(id));
}

/// A turn that does not stall is complete when it is answered, one that stalls is not; a thread
/// that is interrupted may stall once more.
pub proof fn law_turns_are_complete_unless_they_stall(
    v: StubView,
    id: json::JsonView,
    request: json::JsonView,
)
    ensures
        method_of(request) == "turn/start"@ && !stalls(v, params_of(request)) ==> {
            let last = messages_for(v, id, request).last();
            &&& json::member(last, "method"@) == Some(json::JsonView::Text("turn/completed"@))
            &&& json::inner(json::member(last, "params"@), "turn_id"@) == Some(
                json::JsonView::Text("turn-"@ + text::decimal(v.turns as nat)),
            )
            &&& json::inner(json::member(last, "params"@), "status"@) == Some(
                json::JsonView::Text("completed"@),
            )
        },
        method_of(request) == "turn/start"@ && stalls(v, params_of(request)) ==> messages_for(
            v,
            id,
            request,
        ).len() == 4,
        method_of(request) == "turn/interrupt"@ ==> messages_for(v, id, request).len() == 2
            && json::member(messages_for(v, id, request)[1], "method"@) == Some(
            json::JsonView::Text("turn/aborted"@),
        ) && !after_request(v, request).stalled.contains(
            param_or(params_of(request), "thread"@, "thread-unknown"@),
        ),
        (method_of(request) == "turn/start"@ || method_of(request) == "turn/steer"@) && v.turns
            < u64::MAX ==> after_request(v, request).turns == v.turns + 1,
        method_of(request) != "turn/start"@ && method_of(request) != "turn/steer"@ ==> after_request(
            v,
            request,
        ).turns == v.turns,
        method_of(request) != "thread/start"@ ==> after_request(v, request).threads == v.threads,
{
    reveal_strlit("turn/start");
    reveal_strlit("turn/steer");
    reveal_strlit("turn/interrupt");
    reveal_strlit("thread/start");
    reveal_strlit("initialize");
    reveal_strlit("model/list");
    assert("turn/start"@.len() == 10 && "turn/start"@[7] == 'a' && "turn/start"@[0] == 't');
    assert("turn/steer"@.len() == 10 && "turn/steer"@[7] == 'e' && "turn/steer"@[0] == 't');
    assert("turn/interrupt"@.len() == 14);
    assert("thread/start"@.len() == 12);
    assert("initialize"@.len() == 10 && "initialize"@[0] == 'i');
    assert("model/list"@.len() == 10 && "model/list"@[0] == 'm');
    reveal_strlit("jsonrpc");
    reveal_strlit("method");
    reveal_strlit("params");
    reveal_strlit("thread_id");
    reveal_strlit("turn_id");
    reveal_strlit("status");
    assert("jsonrpc"@.len() == 7 && "method"@.len() == 6 && "params"@.len() == 6);
    assert("method"@[0] == 'm' && "params"@[0] == 'p');
    assert("thread_id"@.len() == 9 && "turn_id"@.len() == 7 && "status"@.len() == 6);
    let params = params_of(request);
    let thread = param_or(params, "thread"@, "thread-unknown"@);
    if method_of(request) == "turn/start"@ && !stalls(v, params) {
        let turn = new_turn(v);
        let last = messages_for(v, id, request).last();
        assert(last == turn_work(thread, turn)[4]);
        let done = completed_params(thread, turn, "worker complete"@);
        lemma_notice("turn/completed"@, done);
        let items = done->Object_0;
        assert(items.skip(1)[0] == items[1]);
        assert(items.skip(1).skip(1)[0] == items[2]);
        assert(json::entry_value(items.skip(1), "turn_id"@) == Some(items[1].1));
        assert(json::entry_value(items.skip(1).skip(1), "status"@) == Some(items[2].1));
        assert(json::entry_value(items.skip(1), "status"@) == Some(items[2].1));
    }
    if method_of(request) == "turn/interrupt"@ {
        lemma_notice(
            "turn/aborted"@,
            texts_object(turn_params(thread, param_or(params, "turn"@, "turn-unknown"@))),
        );
    }
}

proof fn lemma_notice(method: Seq<char>, params: json::JsonView)
    ensures
        json::member(notice(method, params), "method"@) == Some(json::JsonView::Text(method)),
        json::member(notice(method, params), "params"@) == Some(params),
{
    reveal_strlit("jsonrpc");
    reveal_strlit("method");
    reveal_strlit("params");
    assert("jsonrpc"@.len() == 7);
    assert("method"@.len() == 6 && "method"@[0] == 'm');
    assert("params"@.len() == 6 && "params"@[0] == 'p');
    let items = notice(method, params)->Object_0;
    assert(items.skip(1)[0] == items[1]);
    assert(items.skip(1).skip(1)[0] == items[2]);
    assert(json::entry_value(items.skip(1), "method"@) == Some(items[1].1));
    assert(json::entry_value(items.skip(1).skip(1), "params"@) == Some(items[2].1));
    assert(json::entry_value(items.skip(1), "params"@) == Some(items[2].1));
}

/// What is asked for in any other way is refused, and changes nothing.
pub proof fn law_other_methods_are_refused(
    v: StubView,
    id: json::JsonView,
    request: json::JsonView,
)
    requires
        method_of(request) != "initialize"@,
        method_of(request) != "model/list"@,
        method_of(request) != "thread/start"@,
        method_of(request) != "turn/start"@,
        method_of(request) != "turn/steer"@,
        method_of(request) != "turn/interrupt"@,
    ensures
        after_request(v, request) == v,
        messages_for(v, id, request).len() == 1,
        json::member(messages_for(v, id, request)[0], "error"@) is Some,
{
    reveal_strlit("jsonrpc");
    reveal_strlit("id");
    reveal_strlit("error");
    assert("jsonrpc"@.len() == 7 && "id"@.len() == 2 && "error"@.len() == 5);
    let items = messages_for(v, id, request)[0]->Object_0;
    assert(items.skip(1)[0] == items[1]);
    assert(items.skip(1).skip(1)[0] == items[2]);
    assert(json::entry_value(items.skip(1).skip(1), "error"@) == Some(items[2].1));
    assert(json::entry_value(items.skip(1), "error"@) == Some(items[2].1));
}

/// A prompt is what its messages say, in order; a message that says nothing adds nothing.
pub proof fn law_prompts_are_what_the_messages_say(
    messages: Seq<json::JsonView>,
    message: json::JsonView,
    t: Seq<char>,
)
    ensures
        json::member(message, "text"@) == Some(json::JsonView::Text(t)) ==> messages_texts(
            messages.push(message),
        ) == messages_texts(messages).push(t),
        json::member(message, "text"@) is None && json::member(message, "content"@) is None
            ==> messages_texts(messages.push(message)) == messages_texts(messages),
        messages_texts(Seq::<json::JsonView>::empty()).len() == 0,
        json::member(message, "text"@) == Some(json::JsonView::Text(t)) ==> segment_texts(
            messages.push(message),
        ) == segment_texts(messages).push(t) && prompt_text(
            json::JsonView::List(seq![message]),
        ) == t,
{
    assert(messages.push(message).drop_last() == messages);
    let one = seq![message];
    assert(one.drop_last() == Seq::<json::JsonView>::empty());
    assert(messages_texts(one.drop_last()) == Seq::<Seq<char>>::empty());
    if json::member(message, "text"@) == Some(json::JsonView::Text(t)) {
        assert(messages_texts(one) == seq![t]);
    }
}

/// A thread keeps the name it is given, and else is named by how many there were; the parameters of
/// a request are its own.
pub proof fn law_threads_are_named(v: StubView, params: json::JsonView, id: Seq<char>)
    ensures
        json::member(params, "threadId"@) == Some(json::JsonView::Text(id)) ==> new_thread(v, params)
            == id,
        json::member(params, "threadId"@) is None && json::member(params, "thread_id"@) is None
            ==> new_thread(v, params) == "thread-"@ + text::decimal(v.threads as nat),
        new_turn(v) == "turn-"@ + text::decimal(v.turns as nat),
        json::member(params, "params"@) is Some ==> Some(params_of(params)) == json::member(
            params,
            "params"@,
        ),
        json::member(params, "method"@) == Some(json::JsonView::Text(id)) ==> method_of(params)
            == id,
        v.threads < u64::MAX ==> next_count(v.threads) == v.threads + 1,
        turn_params(id, id).len() == 2 && turn_params(id, id)[0].0 == "thread_id"@ && turn_params(
            id,
            id,
        )[1].0 == "turn_id"@,
{
    let k = keys_for("thread"@);
    assert(k == seq!["threadId"@, "thread_id"@]);
    assert(k.drop_last() == seq!["threadId"@]);
    assert(k.drop_last().drop_last() == Seq::<Seq<char>>::empty());
    assert(protocol::id_under(Some(params), k.drop_last().drop_last()) is None);
    assert(protocol::id_under(Some(params), k.drop_last()) == protocol::id_of(
        json::member(params, "threadId"@),
    ));
}

} // verus!

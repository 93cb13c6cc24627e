//! What is sent to the app server and what is made of what it sends.
use vstd::prelude::*;

use crate::constants;
use crate::error::ForemanError;
use crate::json;
use crate::json::{first_of, get_in, text_in, Json};
use crate::json_build::{empty_list, object1, object2, object3};
use crate::protocol;
use crate::protocol::{
    parse_thread_id, parse_turn_id, JSONRPCError, JSONRPCErrorError, JSONRPCMessage,
    JSONRPCNotification, JSONRPCRequest, JSONRPCResponse,
};
use crate::text;
use crate::text::{same_text, trim};

verus! {

/// How often a connection to the app server is tried.
pub const CONNECT_RETRY_ATTEMPTS: usize = 3;

/// How long to wait between two tries.
pub const CONNECT_RETRY_DELAY_MS: u64 = 250;

/// A text given to a turn.
#[derive(Debug, Clone)]
pub struct TextPayload {
    pub kind: String,
    pub text: String,
    pub text_elements: Vec<Json>,
}

impl TextPayload {
    /// A plain text.
    pub fn text(text: String) -> (r: Self)
        ensures
            r.kind@ == "text"@,
            r.text == text,
            r.text_elements@.len() == 0,
    {
        TextPayload { kind: "text".to_owned(), text, text_elements: Vec::new() }
    }
}

/// Asks for a thread.
#[derive(Debug, Clone)]
pub struct ThreadStartRequest {
    pub model: Option<String>,
    pub model_provider: Option<String>,
    pub cwd: Option<String>,
    pub sandbox: Option<String>,
}

/// Names the thread that was started.
#[derive(Debug, Clone)]
pub struct ThreadStartResponse {
    pub thread_id: String,
}

/// Asks for a turn.
#[derive(Debug, Clone)]
pub struct TurnStartRequest {
    pub thread_id: String,
    pub input: Vec<TextPayload>,
}

/// Names the turn that was started.
#[derive(Debug, Clone)]
pub struct TurnStartResponse {
    pub turn_id: String,
}

/// Tells a running turn something.
#[derive(Debug, Clone)]
pub struct TurnSteerRequest {
    pub thread_id: String,
    pub expected_turn_id: String,
    pub input: Vec<TextPayload>,
}

/// Names the turn that was told something.
#[derive(Debug, Clone)]
pub struct TurnSteerResponse {
    pub turn_id: String,
    pub expected_turn_id: Option<String>,
}

/// Asks for the end of a turn.
#[derive(Debug, Clone)]
pub struct TurnInterruptRequest {
    pub thread_id: String,
    pub turn_id: String,
}

/// Says nothing.
#[derive(Debug, Clone)]
pub struct EmptyResponse {}

/// What the app server tells.
#[derive(Debug, Clone)]
pub struct RawNotification {
    pub method: String,
    pub params: Json,
}

/// The request that starts a turn with a prompt.
pub fn turn_request(thread_id: &str, prompt: &str) -> (r: TurnStartRequest)
    ensures
        r.thread_id@ == thread_id@,
        r.input@.len() == 1,
        r.input@[0].kind@ == "text"@,
        r.input@[0].text@ == prompt@,
        r.input@[0].text_elements@.len() == 0,
{
    let mut input: Vec<TextPayload> = Vec::new();
    input.push(TextPayload::text(prompt.to_owned()));
    TurnStartRequest { thread_id: thread_id.to_owned(), input }
}

/// The request that tells a running turn something.
pub fn steer_request(thread_id: &str, turn_id: &str, prompt: &str) -> (r: TurnSteerRequest)
    ensures
        r.thread_id@ == thread_id@,
        r.expected_turn_id@ == turn_id@,
        r.input@.len() == 1,
        r.input@[0].kind@ == "text"@,
        r.input@[0].text@ == prompt@,
        r.input@[0].text_elements@.len() == 0,
{
    let mut input: Vec<TextPayload> = Vec::new();
    input.push(TextPayload::text(prompt.to_owned()));
    TurnSteerRequest {
        thread_id: thread_id.to_owned(),
        expected_turn_id: turn_id.to_owned(),
        input,
    }
}

/// The error for an answer that lacks what it should hold.
fn malformed_response() -> (r: ForemanError)
    ensures
        r@ == seq!["failed to deserialize app-server response payload"@],
{
    ForemanError::from_text("failed to deserialize app-server response payload")
}

/// The thread that an answer names, at the top or in the thread that it holds.
pub fn read_thread_start(result: &Json) -> (r: Result<ThreadStartResponse, ForemanError>)
    ensures
        match protocol::thread_of(result@) {
            Some(id) => r matches Ok(a) && a.thread_id@ == id,
            None => r matches Err(e) && e@ == seq![
                "failed to deserialize app-server response payload"@,
            ],
        },
{
    match parse_thread_id(result) {
        Some(thread_id) => Ok(ThreadStartResponse { thread_id }),
        None => Err(malformed_response()),
    }
}

/// The turn that an answer names, at the top or in the turn that it holds.
pub fn read_turn_start(result: &Json) -> (r: Result<TurnStartResponse, ForemanError>)
    ensures
        match protocol::turn_of(result@) {
            Some(id) => r matches Ok(a) && a.turn_id@ == id,
            None => r matches Err(e) && e@ == seq![
                "failed to deserialize app-server response payload"@,
            ],
        },
{
    match parse_turn_id(result) {
        Some(turn_id) => Ok(TurnStartResponse { turn_id }),
        None => Err(malformed_response()),
    }
}

/// The expected turn that an answer names.
pub open spec fn expected_turn(result: json::JsonView) -> Option<Seq<char>> {
    let turn = json::member(result, "turn"@);
    json::text_of(
        json::either(
            json::either(
                json::member(result, "expected_turn_id"@),
                json::member(result, "expectedTurnId"@),
            ),
            json::either(json::inner(turn, "expected_turn_id"@), json::inner(turn, "expectedTurnId"@)),
        ),
    )
}

/// The turns that an answer names.
pub fn read_turn_steer(result: &Json) -> (r: Result<TurnSteerResponse, ForemanError>)
    ensures
        match protocol::turn_of(result@) {
            Some(id) => r matches Ok(a) && a.turn_id@ == id && text::opt_text(a.expected_turn_id)
                == expected_turn(result@),
            None => r matches Err(e) && e@ == seq![
                "failed to deserialize app-server response payload"@,
            ],
        },
{
    match parse_turn_id(result) {
        Some(turn_id) => {
            let turn = result.get("turn");
            let expected_turn_id = text_in(
                first_of(
                    first_of(result.get("expected_turn_id"), result.get("expectedTurnId")),
                    first_of(get_in(turn, "expected_turn_id"), get_in(turn, "expectedTurnId")),
                ),
            );
            Ok(TurnSteerResponse { turn_id, expected_turn_id })
        },
        None => Err(malformed_response()),
    }
}

/// Whether the app server asks for leave, which it gets.
pub open spec fn asks_for_leave(method: Seq<char>) -> bool {
    method == "item/commandExecution/requestApproval"@ || method
        == "item/fileChange/requestApproval"@ || method == "item/requestUserInput"@ || method
        == "item/tool/requestUserInput"@
}

/// What is answered to a request of the app server, or none where it is not handled.
pub open spec fn server_answer(method: Seq<char>) -> Option<json::JsonView> {
    if asks_for_leave(method) {
        Some(json::JsonView::Object(seq![("decision"@, json::JsonView::Text("accept"@))]))
    } else if method == "item/tool/call"@ {
        Some(
            json::JsonView::Object(
                seq![
                    ("success"@, json::JsonView::Bool(true)),
                    ("content_items"@, json::JsonView::List(Seq::empty())),
                ],
            ),
        )
    } else {
        None
    }
}

/// The thread that a request's parameters name, or the empty text.
pub open spec fn thread_named(params: Option<Json>) -> Seq<char> {
    match params {
        Some(p) => match protocol::thread_of(p@) {
            Some(id) => id,
            None => Seq::empty(),
        },
        None => Seq::empty(),
    }
}

/// What is said of a request that is not handled.
pub open spec fn unhandled_data(method: Seq<char>, params: Option<Json>) -> json::JsonView {
    json::JsonView::Object(
        seq![
            ("method"@, json::JsonView::Text(method)),
            ("thread_id"@, json::JsonView::Text(thread_named(params))),
            ("status"@, json::JsonView::Text("unhandled"@)),
        ],
    )
}

/// Whether a message answers a request of the app server as it should.
pub open spec fn answers(reply: JSONRPCMessage, request: JSONRPCRequest) -> bool {
    match server_answer(request.method@) {
        Some(payload) => reply matches JSONRPCMessage::Response(r) && r.id == request.id
            && r.result@ == payload,
        None => reply matches JSONRPCMessage::Error(e) && e.id == request.id && e.error.code
            == constants::APP_SERVER_UNHANDLED_ERROR_CODE && e.error.message@
            == "Request not handled by codex-foreman"@ && e.error.data is Some
            && e.error.data->0@ == unhandled_data(request.method@, request.params),
    }
}

/// The answer to a request of the app server: leave where it asks for leave, an empty success
/// where it calls a tool, and else an error that names the request.
pub fn respond_to_server_request(request: JSONRPCRequest) -> (r: JSONRPCMessage)
    ensures
        answers(r, request),
{
    let method = request.method.as_str();
    if same_text(method, "item/commandExecution/requestApproval") || same_text(
        method,
        "item/fileChange/requestApproval",
    ) || same_text(method, "item/requestUserInput") || same_text(
        method,
        "item/tool/requestUserInput",
    ) {
        let result = object1("decision", Json::Text("accept".to_owned()));
        return JSONRPCMessage::Response(JSONRPCResponse { id: request.id, result });
    }
    if same_text(method, "item/tool/call") {
        let result = object2("success", Json::Bool(true), "content_items", empty_list());
        return JSONRPCMessage::Response(JSONRPCResponse { id: request.id, result });
    }
    let thread = match &request.params {
        Some(p) => match parse_thread_id(p) {
            Some(id) => id,
            None => String::new(),
        },
        None => String::new(),
    };
    let data = object3(
        "method",
        Json::Text(request.method.clone()),
        "thread_id",
        Json::Text(thread),
        "status",
        Json::Text("unhandled".to_owned()),
    );
    JSONRPCMessage::Error(
        JSONRPCError {
            id: request.id,
            error: JSONRPCErrorError {
                code: constants::APP_SERVER_UNHANDLED_ERROR_CODE,
                message: "Request not handled by codex-foreman".to_owned(),
                data: Some(data),
            },
        },
    )
}

/// What is done with a message of the app server.
#[derive(Debug)]
pub enum Incoming {
    /// The request that waits under `key` gets its outcome.
    Complete { key: String, outcome: Result<Json, String> },
    /// The service is told.
    Notify(RawNotification),
    /// The app server is answered.
    Reply(JSONRPCMessage),
}

/// Whether `r` is what is done with `message`.
pub open spec fn handles(r: Incoming, message: JSONRPCMessage) -> bool {
    match message {
        JSONRPCMessage::Response(m) => r matches Incoming::Complete { key, outcome } && key@
            == protocol::request_key(m.id) && outcome == Ok::<Json, String>(m.result),
        JSONRPCMessage::Error(m) => r matches Incoming::Complete { key, outcome } && key@
            == protocol::request_key(m.id) && outcome == Err::<Json, String>(m.error.message),
        JSONRPCMessage::Notification(m) => r matches Incoming::Notify(n) && n.method == m.method
            && n.params == (match m.params {
            Some(p) => p,
            None => Json::Null,
        }),
        JSONRPCMessage::Request(m) => r matches Incoming::Reply(reply) && answers(reply, m),
    }
}

/// What is done with a message of the app server: an answer goes to the request that it names,
/// a notification to the service, and a request is answered.
pub fn handle_message(message: JSONRPCMessage) -> (r: Incoming)
    ensures
        handles(r, message),
{
    match message {
        JSONRPCMessage::Response(m) => Incoming::Complete {
            key: m.id.as_key(),
            outcome: Ok(m.result),
        },
        JSONRPCMessage::Error(m) => Incoming::Complete {
            key: m.id.as_key(),
            outcome: Err(m.error.message),
        },
        JSONRPCMessage::Notification(m) => {
            let params = match m.params {
                Some(p) => p,
                None => Json::Null,
            };
            Incoming::Notify(RawNotification { method: m.method, params })
        },
        JSONRPCMessage::Request(m) => Incoming::Reply(respond_to_server_request(m)),
    }
}

/// The message on a line, without the white space around it; none on a blank line.
pub fn message_line(line: &str) -> (r: Option<String>)
    ensures
        r is None == text::is_blank(line@),
        r matches Some(s) ==> s@ == text::trimmed(line@),
{
    proof {
        text::lemma_blank_trim(line@);
    }
    let trimmed = trim(line);
    if trimmed.as_str().is_empty() {
        None
    } else {
        Some(trimmed)
    }
}

/// Whether a connection is tried again after `attempt` tries have failed, and after how long.
pub fn retry_delay(attempt: usize) -> (r: Option<u64>)
    ensures
        r == (if attempt < CONNECT_RETRY_ATTEMPTS {
            Some(CONNECT_RETRY_DELAY_MS)
        } else {
            None
        }),
{
    if attempt < CONNECT_RETRY_ATTEMPTS {
        Some(CONNECT_RETRY_DELAY_MS)
    } else {
        None
    }
}

/// The arguments that override settings of the app server.
pub open spec fn override_args(overrides: Seq<Seq<char>>) -> Seq<Seq<char>>
    decreases overrides.len(),
{
    if overrides.len() == 0 {
        Seq::empty()
    } else {
        override_args(overrides.drop_last()) + seq!["--config"@, overrides.last()]
    }
}

/// The arguments that start the app server with overrides of its settings.
pub fn app_server_args(overrides: &Vec<String>) -> (r: Vec<String>)
    ensures
        text::texts(r@) == seq!["app-server"@] + override_args(text::texts(overrides@)),
{
    let mut args: Vec<String> = Vec::new();
    args.push("app-server".to_owned());
    let ghost all = text::texts(overrides@);
    assert(all.take(0) == Seq::<Seq<char>>::empty());
    assert(text::texts(args@) == seq!["app-server"@] + override_args(all.take(0)));
    let mut i: usize = 0;
    while i < overrides.len()
        invariant
            i <= overrides@.len(),
            all == text::texts(overrides@),
            text::texts(args@) == seq!["app-server"@] + override_args(all.take(i as int)),
        decreases overrides@.len() - i,
    {
        let ghost before = args@;
        args.push("--config".to_owned());
        args.push(overrides[i].clone());
        proof {
            assert(all.take(i + 1).drop_last() == all.take(i as int));
            assert(all.take(i + 1).last() == overrides@[i as int]@);
            assert(text::texts(args@) == text::texts(before) + seq![
                "--config"@,
                overrides@[i as int]@,
            ]);
            assert(text::texts(args@) == seq!["app-server"@] + override_args(all.take(i + 1)));
        }
        i += 1;
    }
    assert(all.take(i as int) == all);
    args
}

/// What the app server is told of this client when it starts.
pub fn initialize_params(version: &str) -> (r: Json)
    ensures
        r@ == json::JsonView::Object(
            seq![
                (
                    "clientInfo"@,
                    json::JsonView::Object(
                        seq![
                            ("name"@, json::JsonView::Text("codex-foreman"@)),
                            ("title"@, json::JsonView::Text("Codex Foreman"@)),
                            ("version"@, json::JsonView::Text(version@)),
                        ],
                    ),
                ),
                (
                    "capabilities"@,
                    json::JsonView::Object(
                        seq![("experimentalApi"@, json::JsonView::Bool(false))],
                    ),
                ),
            ],
        ),
{
    let info = object3(
        "name",
        Json::Text("codex-foreman".to_owned()),
        "title",
        Json::Text("Codex Foreman".to_owned()),
        "version",
        Json::Text(version.to_owned()),
    );
    object2("clientInfo", info, "capabilities", object1("experimentalApi", Json::Bool(false)))
}

/// What the app server is told once it has answered.
pub fn initialized_notice() -> (r: JSONRPCMessage)
    ensures
        r matches JSONRPCMessage::Notification(n) && n.method@ == "initialized"@ && n.params == Some(
            Json::Null,
        ),
{
    JSONRPCMessage::Notification(
        JSONRPCNotification { method: "initialized".to_owned(), params: Some(Json::Null) },
    )
}

/// A request of the app server is answered under its own identifier: with leave or success
/// where it is known, and else with the error for unknown requests.
pub proof fn law_every_server_request_is_answered(reply: JSONRPCMessage, request: JSONRPCRequest)
    requires
        answers(reply, request),
    ensures
        reply is Response || reply is Error,
        reply matches JSONRPCMessage::Response(r) ==> r.id == request.id,
        reply matches JSONRPCMessage::Error(e) ==> e.id == request.id && e.error.code == -32601,
        asks_for_leave(request.method@) || request.method@ == "item/tool/call"@ <==> reply is Response,
{
}

/// What the server asks leave for it gets, what it asks a tool for succeeds, and anything else is
/// left unanswered.
pub proof fn law_requests_for_leave_are_granted(method: Seq<char>)
    ensures
        method == "item/commandExecution/requestApproval"@ || method
            == "item/fileChange/requestApproval"@ || method == "item/requestUserInput"@ || method
            == "item/tool/requestUserInput"@ ==> server_answer(method) is Some && json::member(
            server_answer(method)->0,
            "decision"@,
        ) == Some(json::JsonView::Text("accept"@)),
        method == "item/tool/call"@ ==> server_answer(method) is Some && json::member(
            server_answer(method)->0,
            "success"@,
        ) == Some(json::JsonView::Bool(true)),
        server_answer(method) is Some ==> asks_for_leave(method) || method == "item/tool/call"@,
        method == "turn/start"@ ==> server_answer(method) is None,
{
    reveal_strlit("item/commandExecution/requestApproval");
    reveal_strlit("item/fileChange/requestApproval");
    reveal_strlit("item/requestUserInput");
    reveal_strlit("item/tool/requestUserInput");
    reveal_strlit("item/tool/call");
    reveal_strlit("turn/start");
    assert("item/commandExecution/requestApproval"@.len() == 37);
    assert("item/fileChange/requestApproval"@.len() == 31);
    assert("item/requestUserInput"@.len() == 21);
    assert("item/tool/requestUserInput"@.len() == 26);
    assert("item/tool/call"@.len() == 14);
    assert("turn/start"@.len() == 10);
}

/// A response completes the request whose identifier it has, with its result; an error completes it
/// with its message; a notification is passed on as it is.
pub proof fn law_answers_go_to_their_requests(r: Incoming, message: JSONRPCMessage)
    requires
        handles(r, message),
    ensures
        message is Response ==> r is Complete && r->key@ == protocol::request_key(
            message->Response_0.id,
        ) && r->outcome is Ok && r->outcome->Ok_0 == message->Response_0.result,
        message is Error ==> r is Complete && r->key@ == protocol::request_key(message->Error_0.id)
            && r->outcome is Err && r->outcome->Err_0 == message->Error_0.error.message,
        message is Notification ==> r is Notify && r->Notify_0.method
            == message->Notification_0.method,
        message is Notification && message->Notification_0.params is Some ==> r->Notify_0.params
            == message->Notification_0.params->0,
        message is Request ==> r is Reply,
{
}

/// Each setting is handed over behind its own flag, in order.
pub proof fn law_settings_are_handed_over(overrides: Seq<Seq<char>>, setting: Seq<char>)
    ensures
        override_args(Seq::<Seq<char>>::empty()).len() == 0,
        override_args(overrides.push(setting)) == override_args(overrides).push("--config"@).push(
            setting,
        ),
        override_args(seq![setting]) == seq!["--config"@, setting],
{
    assert(overrides.push(setting).drop_last() == overrides);
    assert(seq![setting].drop_last() == Seq::<Seq<char>>::empty());
    assert(override_args(seq![setting].drop_last()) == Seq::<Seq<char>>::empty());
}

/// The turn that is expected is read in either spelling, at the top before the turn.
pub proof fn law_expected_turns_are_read(result: json::JsonView, id: Seq<char>)
    ensures
        json::member(result, "expected_turn_id"@) == Some(json::JsonView::Text(id))
            ==> expected_turn(result) == Some(id),
        json::member(result, "expected_turn_id"@) is None && json::member(result, "expectedTurnId"@)
            == Some(json::JsonView::Text(id)) ==> expected_turn(result) == Some(id),
        json::member(result, "expected_turn_id"@) is None && json::member(result, "expectedTurnId"@)
            is None && json::inner(json::member(result, "turn"@), "expected_turn_id"@) == Some(
            json::JsonView::Text(id),
        ) ==> expected_turn(result) == Some(id),
{
}

} // verus!
